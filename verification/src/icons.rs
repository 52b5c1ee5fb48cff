//! Toolbar icons: coverage masks packed side by side into one tintable strip.
//!
//! Each icon has a square coverage mask, its master. The strip holds every master reduced to the
//! icon size at hand: white texels with the coverage as alpha, so that one texture serves every
//! tint.
use crate::ratio::{down, lemma_pow2_next, lemma_powers, rounds_to, single_ratio, up};
use crate::single::{pack, Single};
use crate::wrap::is_nearest;
use vstd::arithmetic::power2::{lemma_pow2_pos, pow2};
use vstd::prelude::*;

verus! {

/// The edge of a master in pixels.
pub const MASTER: usize = 64;

/// The number of icons in the strip.
pub const COUNT: usize = 28;

/// A toolbar icon, in the order of the strip's cells. Several buttons share an icon: the black and
/// the grey backdrop are drawn with [`Icon::B`] and [`Icon::G`], whose pictures [`Icon::Black`] and
/// [`Icon::Grey`] repeat in cells of their own, which no button uses.
#[derive(Debug, Clone, Copy, PartialEq, Eq, Structural)]
pub enum Icon {
    Left,
    Right,
    ZoomOut,
    ZoomIn,
    Fit,
    OneToOne,
    Rgb,
    Rgba,
    R,
    G,
    B,
    A,
    Aces,
    EvUp,
    EvReset,
    EvDown,
    Black,
    White,
    Grey,
    Checker,
    Outline,
    OpenWith,
    Fullscreen,
    Flipbook,
    Play,
    Pause,
    More,
    Octagon,
}

/// The cell of an icon in the strip.
pub open spec fn icon_index(icon: Icon) -> nat {
    match icon {
        Icon::Left => 0,
        Icon::Right => 1,
        Icon::ZoomOut => 2,
        Icon::ZoomIn => 3,
        Icon::Fit => 4,
        Icon::OneToOne => 5,
        Icon::Rgb => 6,
        Icon::Rgba => 7,
        Icon::R => 8,
        Icon::G => 9,
        Icon::B => 10,
        Icon::A => 11,
        Icon::Aces => 12,
        Icon::EvUp => 13,
        Icon::EvReset => 14,
        Icon::EvDown => 15,
        Icon::Black => 16,
        Icon::White => 17,
        Icon::Grey => 18,
        Icon::Checker => 19,
        Icon::Outline => 20,
        Icon::OpenWith => 21,
        Icon::Fullscreen => 22,
        Icon::Flipbook => 23,
        Icon::Play => 24,
        Icon::Pause => 25,
        Icon::More => 26,
        Icon::Octagon => 27,
    }
}

/// The file stem of an icon's drawing.
pub open spec fn icon_stem(icon: Icon) -> Seq<char> {
    match icon {
        Icon::Left => "icon_left"@,
        Icon::Right => "icon_right"@,
        Icon::ZoomOut => "icon_zoom_out"@,
        Icon::ZoomIn => "icon_zoom_in"@,
        Icon::Fit => "icon_fit"@,
        Icon::OneToOne => "icon_1_1"@,
        Icon::Rgb => "icon_RGB"@,
        Icon::Rgba => "icon_rgba"@,
        Icon::R => "icon_R"@,
        Icon::G => "icon_G"@,
        Icon::B => "icon_B"@,
        Icon::A => "icon_A"@,
        Icon::Aces => "icon_aces"@,
        Icon::EvUp => "icon_ev+"@,
        Icon::EvReset => "icon_ev0"@,
        Icon::EvDown => "icon_ev-"@,
        Icon::Black => "icon_B"@,
        Icon::White => "icon_W"@,
        Icon::Grey => "icon_G"@,
        Icon::Checker => "icon_C"@,
        Icon::Outline => "icon_outline"@,
        Icon::OpenWith => "icon_open_with"@,
        Icon::Fullscreen => "icon_fullscreen"@,
        Icon::Flipbook => "icon_flipbook"@,
        Icon::Play => "icon_play"@,
        Icon::Pause => "icon_pause"@,
        Icon::More => "icon_more"@,
        Icon::Octagon => "icon_octagon"@,
    }
}

/// Every icon, in the order of the cells.
pub open spec fn all_icons() -> Seq<Icon> {
    seq![
        Icon::Left,
        Icon::Right,
        Icon::ZoomOut,
        Icon::ZoomIn,
        Icon::Fit,
        Icon::OneToOne,
        Icon::Rgb,
        Icon::Rgba,
        Icon::R,
        Icon::G,
        Icon::B,
        Icon::A,
        Icon::Aces,
        Icon::EvUp,
        Icon::EvReset,
        Icon::EvDown,
        Icon::Black,
        Icon::White,
        Icon::Grey,
        Icon::Checker,
        Icon::Outline,
        Icon::OpenWith,
        Icon::Fullscreen,
        Icon::Flipbook,
        Icon::Play,
        Icon::Pause,
        Icon::More,
        Icon::Octagon,
    ]
}

/// Every icon, in the order of the cells.
pub fn all_icon_list() -> (v: Vec<Icon>)
    ensures
        v@ == all_icons(),
{
    let v = vec![
        Icon::Left,
        Icon::Right,
        Icon::ZoomOut,
        Icon::ZoomIn,
        Icon::Fit,
        Icon::OneToOne,
        Icon::Rgb,
        Icon::Rgba,
        Icon::R,
        Icon::G,
        Icon::B,
        Icon::A,
        Icon::Aces,
        Icon::EvUp,
        Icon::EvReset,
        Icon::EvDown,
        Icon::Black,
        Icon::White,
        Icon::Grey,
        Icon::Checker,
        Icon::Outline,
        Icon::OpenWith,
        Icon::Fullscreen,
        Icon::Flipbook,
        Icon::Play,
        Icon::Pause,
        Icon::More,
        Icon::Octagon,
    ];
    assert(v@ =~= all_icons());
    v
}

impl Icon {
    /// The cell of this icon in the strip.
    pub fn index(self) -> (i: usize)
        ensures
            i == icon_index(self),
            i < COUNT,
    {
        match self {
            Icon::Left => 0,
            Icon::Right => 1,
            Icon::ZoomOut => 2,
            Icon::ZoomIn => 3,
            Icon::Fit => 4,
            Icon::OneToOne => 5,
            Icon::Rgb => 6,
            Icon::Rgba => 7,
            Icon::R => 8,
            Icon::G => 9,
            Icon::B => 10,
            Icon::A => 11,
            Icon::Aces => 12,
            Icon::EvUp => 13,
            Icon::EvReset => 14,
            Icon::EvDown => 15,
            Icon::Black => 16,
            Icon::White => 17,
            Icon::Grey => 18,
            Icon::Checker => 19,
            Icon::Outline => 20,
            Icon::OpenWith => 21,
            Icon::Fullscreen => 22,
            Icon::Flipbook => 23,
            Icon::Play => 24,
            Icon::Pause => 25,
            Icon::More => 26,
            Icon::Octagon => 27,
        }
    }

    /// The file stem of this icon's drawing.
    pub fn stem(self) -> (s: &'static str)
        ensures
            s@ == icon_stem(self),
    {
        match self {
            Icon::Left => "icon_left",
            Icon::Right => "icon_right",
            Icon::ZoomOut => "icon_zoom_out",
            Icon::ZoomIn => "icon_zoom_in",
            Icon::Fit => "icon_fit",
            Icon::OneToOne => "icon_1_1",
            Icon::Rgb => "icon_RGB",
            Icon::Rgba => "icon_rgba",
            Icon::R => "icon_R",
            Icon::G => "icon_G",
            Icon::B => "icon_B",
            Icon::A => "icon_A",
            Icon::Aces => "icon_aces",
            Icon::EvUp => "icon_ev+",
            Icon::EvReset => "icon_ev0",
            Icon::EvDown => "icon_ev-",
            Icon::Black => "icon_B",
            Icon::White => "icon_W",
            Icon::Grey => "icon_G",
            Icon::Checker => "icon_C",
            Icon::Outline => "icon_outline",
            Icon::OpenWith => "icon_open_with",
            Icon::Fullscreen => "icon_fullscreen",
            Icon::Flipbook => "icon_flipbook",
            Icon::Play => "icon_play",
            Icon::Pause => "icon_pause",
            Icon::More => "icon_more",
            Icon::Octagon => "icon_octagon",
        }
    }

    /// This icon's rectangle within the strip: the left and right edge in parts of the strip's
    /// width, each in single precision.
    pub fn uv(self) -> (r: (Single, Single))
        ensures
            icon_index(self) == 0 ==> r.0 == (Single { bits: 0 }),
            icon_index(self) > 0 ==> is_nearest(icon_index(self), COUNT as nat, r.0),
            is_nearest(icon_index(self) + 1, COUNT as nat, r.1),
    {
        let i = self.index();
        let left = if i == 0 {
            Single { bits: 0 }
        } else {
            share(i)
        };
        (left, share(i + 1))
    }
}

fn share(i: usize) -> (r: Single)
    requires
        0 < i <= COUNT,
    ensures
        is_nearest(i as nat, COUNT as nat, r),
{
    let (sig, exp) = single_ratio(i as u128, COUNT as u128);
    pack(false, sig, exp)
}

/// The strip's order is the icons' own: each icon is at its index, so no two share a cell.
pub proof fn law_icons_have_their_own_cells(icon: Icon)
    ensures
        all_icons().len() == COUNT,
        icon_index(icon) < COUNT,
        all_icons()[icon_index(icon) as int] == icon,
{
}

/// `psig * 2^pexp` is `t` steps of `64 / n` masters pixels, in single precision.
pub open spec fn is_step(t: nat, n: nat, psig: nat, pexp: int) -> bool {
    exists|sig: nat, exp: int| #[trigger]
        rounds_to(64, n, sig, exp) && rounds_to(
            t * sig * pow2(up(exp)),
            pow2(down(exp)),
            psig,
            pexp,
        )
}

/// The whole number at or below `sig * 2^exp`, and the one at or above.
pub open spec fn floor_of(sig: nat, exp: int) -> nat {
    sig * pow2(up(exp)) / pow2(down(exp))
}

pub open spec fn ceil_of(sig: nat, exp: int) -> nat {
    (sig * pow2(up(exp)) + pow2(down(exp)) - 1) as nat / pow2(down(exp))
}

/// `s` is the first master pixel under pixel `t` of an icon `n` pixels wide.
pub open spec fn is_start(t: nat, n: nat, s: nat) -> bool {
    if t == 0 {
        s == 0
    } else {
        exists|sig: nat, exp: int| #[trigger] is_step(t, n, sig, exp) && s == floor_of(sig, exp)
    }
}

/// `e` is the end of the master pixels under pixel `t`, which start at `s`: at least one, and none
/// past the edge.
pub open spec fn is_end(t: nat, n: nat, s: nat, e: nat) -> bool {
    exists|sig: nat, exp: int| #[trigger]
        is_step(t + 1, n, sig, exp) && e == (if ceil_of(sig, exp) < s + 1 {
            s + 1
        } else if ceil_of(sig, exp) > 64 {
            64
        } else {
            ceil_of(sig, exp)
        })
}

/// The widest icon whose last pixel single precision is sure to leave on the master.
pub const MAX_EDGE: u32 = 0xaa_aaaa;

/// The position of `t` steps: its floor and its ceiling.
fn step(t: u32, n: u32) -> (r: (u32, u32))
    requires
        0 < t <= n,
        0 < n <= MAX_EDGE,
    ensures
        exists|sig: nat, exp: int| #[trigger]
            is_step(t as nat, n as nat, sig, exp) && r.0 == floor_of(sig, exp) && r.1 == ceil_of(
                sig,
                exp,
            ),
        t < n ==> r.0 < 64,
{
    let (sig, exp) = single_ratio(64, n as u128);
    proof {
        lemma_scale_exponent(n as nat, sig as nat, exp as int);
        lemma_pow2_next(0);
    }
    let k: u32 = (-exp) as u32;
    let den = power_of_two(k);
    let num: u128 = {
        assert(t * sig <= 0xaa_aaaa * 0xff_ffff && t * sig > 0) by (nonlinear_arith)
            requires
                0 < t <= 0xaa_aaaa,
                0 < sig <= 0xff_ffff,
        ;
        t as u128 * sig as u128
    };
    let (psig, pexp) = single_ratio(num, den);
    proof {
        assert(t * sig * 1 == t * sig) by (nonlinear_arith);
        assert(is_step(t as nat, n as nat, psig as nat, pexp as int));
        lemma_step_exponent(
            t as nat,
            n as nat,
            sig as nat,
            k as nat,
            psig as nat,
            pexp as int,
        );
    }
    let j: u32 = (-pexp) as u32;
    let unit = power_of_two(j);
    proof {
        assert(psig * 1 == psig) by (nonlinear_arith);
        assert(floor_of(psig as nat, pexp as int) == psig as nat / unit as nat);
        assert(psig as int / (unit as int) <= psig) by (nonlinear_arith)
            requires
                unit >= 1,
        ;
        assert((psig + unit - 1) / (unit as int) <= psig) by (nonlinear_arith)
            requires
                unit >= 1,
                psig >= 1,
        ;
    }
    ((psig as u128 / unit) as u32, ((psig as u128 + unit - 1) / unit) as u32)
}

/// `2^k` for the exponents of a step.
fn power_of_two(k: u32) -> (p: u128)
    requires
        k <= 60,
    ensures
        p == pow2(k as nat),
        1 <= p <= 0x1000_0000_0000_0000,
{
    let p: u64 = 1u64 << (k as u64);
    proof {
        vstd::arithmetic::power2::lemma2_to64_rest();
        vstd::arithmetic::power2::lemma2_to64();
        if k < 60 {
            vstd::arithmetic::power2::lemma_pow2_strictly_increases(k as nat, 60);
        }
        lemma_pow2_pos(k as nat);
        vstd::bits::lemma_u64_shl_is_mul(1, k as u64);
    }
    p as u128
}

/// The step's exponent is negative and not too far below zero.
proof fn lemma_scale_exponent(n: nat, sig: nat, exp: int)
    requires
        0 < n <= MAX_EDGE,
        rounds_to(64, n, sig, exp),
    ensures
        -42 <= exp < 0,
        2 * (sig * n) <= 128 * pow2(down(exp)) + n,
        128 * pow2(down(exp)) <= 2 * (sig * n) + n,
{
    lemma_pow2_next(0);
    lemma_pow2_pos(up(exp));
    lemma_pow2_pos(down(exp));
    let unit = n * pow2(up(exp));
    let a = pow2(down(exp));
    let off = 64 * a - sig * unit;
    assert(unit >= 1) by (nonlinear_arith)
        requires
            unit == n * pow2(up(exp)),
            n >= 1,
            pow2(up(exp)) >= 1,
    ;
    if exp >= 0 {
        assert(false) by (nonlinear_arith)
            requires
                off == 64 * a - sig * unit,
                a == 1,
                sig >= 0x80_0000,
                unit >= 1,
                off < 0 && sig == 0x80_0000 ==> -4 * off <= unit,
                off < 0 && sig > 0x80_0000 ==> -2 * off <= unit,
        ;
    }
    assert(n * 1 == n) by (nonlinear_arith);
    assert(sig * n <= 0xff_ffff * 0xaa_aaaa) by (nonlinear_arith)
        requires
            sig <= 0xff_ffff,
            n <= 0xaa_aaaa,
    ;
    assert(128 * a <= 2 * (sig * n) + n);
    lemma_powers();
    vstd::arithmetic::power2::lemma2_to64_rest();
    vstd::arithmetic::power2::lemma2_to64();
    crate::ratio::lemma_exponent_below(down(exp), 42);
}

/// The same of a position, and a position before the end lies before the edge.
proof fn lemma_step_exponent(t: nat, n: nat, sig: nat, k: nat, psig: nat, pexp: int)
    requires
        0 < t <= n <= MAX_EDGE,
        0x80_0000 <= sig < 0x100_0000,
        k <= 42,
        2 * (sig * n) <= 128 * pow2(k) + n,
        128 * pow2(k) <= 2 * (sig * n) + n,
        rounds_to(t * sig, pow2(k), psig, pexp),
    ensures
        -60 <= pexp < 0,
        t < n ==> psig < 64 * pow2(down(pexp)),
        t < n ==> psig / pow2(down(pexp)) < 64,
{
    lemma_pow2_next(0);
    lemma_pow2_pos(k);
    lemma_pow2_pos(up(pexp));
    lemma_pow2_pos(down(pexp));
    let a = pow2(k);
    let v = t * sig;
    let unit = a * pow2(up(pexp));
    let b = pow2(down(pexp));
    let off = v * b - psig * unit;
    assert(v <= sig * n && v >= sig) by (nonlinear_arith)
        requires
            v == t * sig,
            1 <= t <= n,
    ;
    assert(unit >= a) by (nonlinear_arith)
        requires
            unit == a * pow2(up(pexp)),
            pow2(up(pexp)) >= 1,
    ;
    assert(n * 0x1_0000 <= a) by (nonlinear_arith)
        requires
            2 * (sig * n) <= 128 * a + n,
            sig >= 0x80_0000,
            n >= 0,
    ;
    if pexp >= 0 {
        assert(v * 1 == v) by (nonlinear_arith);
        assert(false) by (nonlinear_arith)
            requires
                off == v - psig * unit,
                2 * v <= 129 * a,
                unit >= a,
                a >= 1,
                psig >= 0x80_0000,
                off < 0 && psig == 0x80_0000 ==> -4 * off <= unit,
                off < 0 && psig > 0x80_0000 ==> -2 * off <= unit,
        ;
    }
    assert(a * 1 == a) by (nonlinear_arith);
    assert(unit == a);
    assert(2 * off <= a && -2 * off <= a);
    // From above: b <= 2 a.
    assert(b <= 2 * a) by (nonlinear_arith)
        requires
            off == v * b - psig * a,
            2 * off <= a,
            v >= 0x80_0000,
            psig <= 0xff_ffff,
            a >= 1,
            b >= 1,
    ;
    lemma_powers();
    vstd::arithmetic::power2::lemma2_to64_rest();
    vstd::arithmetic::power2::lemma2_to64();
    if k < 42 {
        vstd::arithmetic::power2::lemma_pow2_strictly_increases(k, 42);
    }
    crate::ratio::lemma_exponent_below(down(pexp), 43);
    // From below: b is more than 2^16.
    assert(b > 0x1_0000) by (nonlinear_arith)
        requires
            off == v * b - psig * a,
            -2 * off <= a,
            2 * v <= 129 * a,
            psig >= 0x80_0000,
            a >= 1,
            b >= 1,
    {
        assert(2 * psig * a <= 2 * v * b + a);
        assert(2 * v * b <= 129 * a * b);
    }
    if t < n {
        assert(v <= sig * n - sig) by (nonlinear_arith)
            requires
                v == t * sig,
                t + 1 <= n,
        ;
        lemma_never_past_edge(n, sig, a, v, psig, down(pexp), off);
        vstd::arithmetic::div_mod::lemma_fundamental_div_mod(psig as int, b as int);
        vstd::arithmetic::div_mod::lemma_mod_bound(psig as int, b as int);
        let q = (psig / b) as int;
        assert(q < 64) by (nonlinear_arith)
            requires
                psig == b * q + psig % b,
                psig % b >= 0,
                psig < 64 * b,
                b >= 1,
        ;
    }
}

/// A position before the end does not round up to the edge.
proof fn lemma_never_past_edge(
    n: nat,
    sig: nat,
    a: nat,
    v: nat,
    psig: nat,
    d: nat,
    off: int,
)
    requires
        0 < n <= MAX_EDGE,
        0x80_0000 <= sig,
        128 * a <= 2 * (sig * n) + n,
        2 * v <= 128 * a + n - 2 * sig,
        psig < 0x100_0000,
        pow2(d) > 0x1_0000,
        off == v * pow2(d) - psig * a,
        off < 0 && psig == 0x80_0000 ==> -4 * off <= a,
        -2 * off <= a,
    ensures
        psig < 64 * pow2(d),
{
    if psig >= 64 * pow2(d) {
        lemma_edge_unit(psig, d);
        lemma_edge_is_out_of_reach(n, sig, a, v, psig, off);
    }
}

proof fn lemma_edge_unit(psig: nat, d: nat)
    requires
        psig < 0x100_0000,
        pow2(d) > 0x1_0000,
        psig >= 64 * pow2(d),
    ensures
        pow2(d) == 0x2_0000,
{
    vstd::arithmetic::power2::lemma2_to64();
    if d < 17 {
        if d < 16 {
            vstd::arithmetic::power2::lemma_pow2_strictly_increases(d, 16);
        }
    } else if d > 17 {
        if d > 18 {
            vstd::arithmetic::power2::lemma_pow2_strictly_increases(18, d);
        }
    }
}

proof fn lemma_edge_is_out_of_reach(n: nat, sig: nat, a: nat, v: nat, psig: nat, off: int)
    requires
        0 < n <= MAX_EDGE,
        0x80_0000 <= sig,
        128 * a <= 2 * (sig * n) + n,
        2 * v <= 128 * a + n - 2 * sig,
        off == v * 0x2_0000 - psig * a,
        off < 0 && psig == 0x80_0000 ==> -4 * off <= a,
        -2 * off <= a,
    ensures
        psig < 0x80_0000,
{
    if psig >= 0x80_0000 {
        lemma_edge_terms(n, sig, a, psig);
        if psig == 0x80_0000 && off < 0 {
            assert(0x200_0000 * a - a <= 0x8_0000 * v);
            assert(a >= 0x4_0000 * (2 * sig - n));
        } else {
            assert(v >= 64 * a);
        }
    }
}

proof fn lemma_edge_terms(n: nat, sig: nat, a: nat, psig: nat)
    requires
        n <= MAX_EDGE,
        0x80_0000 <= sig,
        0x80_0000 <= psig,
    ensures
        psig * a >= 0x80_0000 * a,
        psig > 0x80_0000 ==> psig * a >= 0x80_0001 * a,
        0x400_0000 * sig - 2 * (sig * n) >= 0x80_0000 * 0x400_0000 - 0x100_0000 * n,
{
    assert(psig * a >= 0x80_0000 * a) by (nonlinear_arith)
        requires
            psig >= 0x80_0000,
    ;
    if psig > 0x80_0000 {
        assert(psig * a >= 0x80_0001 * a) by (nonlinear_arith)
            requires
                psig >= 0x80_0001,
        ;
    }
    let w = sig * n;
    assert(0x400_0000 * sig - 2 * w >= 0x80_0000 * 0x400_0000 - 0x100_0000 * n) by (nonlinear_arith)
        requires
            w == sig * n,
            sig >= 0x80_0000,
            n <= 0xaa_aaaa,
    {
        assert((sig - 0x80_0000) * (0x400_0000 - 2 * n) >= 0);
    }
}

/// The master pixels under pixel `t` of an icon `n` pixels wide.
fn footprint(t: u32, n: u32) -> (r: (u32, u32))
    requires
        t < n,
        n <= MAX_EDGE,
    ensures
        is_start(t as nat, n as nat, r.0 as nat),
        is_end(t as nat, n as nat, r.0 as nat, r.1 as nat),
        r.0 < r.1 <= 64,
{
    let start: u32 = if t == 0 {
        0
    } else {
        let (floor, _ceil) = step(t, n);
        floor
    };
    let (_floor, ceil) = step(t + 1, n);
    proof {
        let (sig, exp) = choose|sig: nat, exp: int| #[trigger]
            is_step((t + 1) as nat, n as nat, sig, exp) && _floor == floor_of(sig, exp) && ceil
                == ceil_of(sig, exp);
        assert(is_step(t as nat + 1, n as nat, sig, exp));
    }
    let end: u32 = if ceil < start + 1 {
        start + 1
    } else if ceil > 64 {
        64
    } else {
        ceil
    };
    (start, end)
}

/// `s` is [`is_start`] and `e` is [`is_end`] of pixel `t`.
pub open spec fn is_footprint(t: nat, n: nat, s: nat, e: nat) -> bool {
    is_start(t, n, s) && is_end(t, n, s, e)
}

/// The sum of the pixels `x0..x1` of row `y` of a master.
pub open spec fn row_sum(master: Seq<u8>, y: int, x0: int, x1: int) -> nat
    decreases x1 - x0,
{
    if x1 <= x0 {
        0
    } else {
        row_sum(master, y, x0, x1 - 1) + master[y * 64 + x1 - 1] as nat
    }
}

/// The sum of the pixels of a rectangle of a master.
pub open spec fn rect_sum(master: Seq<u8>, x0: int, x1: int, y0: int, y1: int) -> nat
    decreases y1 - y0,
{
    if y1 <= y0 {
        0
    } else {
        rect_sum(master, x0, x1, y0, y1 - 1) + row_sum(master, y1 - 1, x0, x1)
    }
}

/// `v` is the coverage of pixel `(tx, ty)` of a master reduced to `n` pixels: the mean of the
/// pixels under it, rounded down.
pub open spec fn is_coverage(master: Seq<u8>, n: nat, tx: nat, ty: nat, v: int) -> bool {
    exists|x0: nat, x1: nat, y0: nat, y1: nat|
        #![trigger is_footprint(tx, n, x0, x1), is_footprint(ty, n, y0, y1)]
        is_footprint(tx, n, x0, x1) && is_footprint(ty, n, y0, y1) && v == rect_sum(
            master,
            x0 as int,
            x1 as int,
            y0 as int,
            y1 as int,
        ) as int / ((x1 - x0) * (y1 - y0))
}

/// The mean of a rectangle of a master.
fn mean(master: &Vec<u8>, x0: u32, x1: u32, y0: u32, y1: u32) -> (v: u8)
    requires
        master.len() == 4096,
        x0 < x1 <= 64,
        y0 < y1 <= 64,
    ensures
        v == rect_sum(master@, x0 as int, x1 as int, y0 as int, y1 as int) as int / ((x1 - x0) * (y1
            - y0)),
{
    let mut sum: u32 = 0;
    let mut y = y0;
    assert(0 * (x1 - x0) == 0) by (nonlinear_arith);
    while y < y1
        invariant
            master.len() == 4096,
            x0 < x1 <= 64,
            y0 <= y <= y1 <= 64,
            sum == rect_sum(master@, x0 as int, x1 as int, y0 as int, y as int),
            sum <= 255 * ((y - y0) * (x1 - x0)),
            sum <= 16320 * (y - y0),
        decreases y1 - y,
    {
        let ghost before = sum;
        let mut x = x0;
        while x < x1
            invariant
                master.len() == 4096,
                x0 <= x <= x1 <= 64,
                y0 <= y < y1 <= 64,
                before <= 16320 * (y - y0),
                sum == before + row_sum(master@, y as int, x0 as int, x as int),
                sum <= before + 255 * (x - x0),
            decreases x1 - x,
        {
            sum += master[(y * 64 + x) as usize] as u32;
            x += 1;
        }
        assert((y + 1 - y0) * (x1 - x0) == (y - y0) * (x1 - x0) + (x1 - x0)) by (nonlinear_arith);
        y += 1;
    }
    proof {
        assert(0 < (x1 - x0) * (y1 - y0) <= 4096) by (nonlinear_arith)
            requires
                0 < x1 - x0 <= 64,
                0 < y1 - y0 <= 64,
        ;
    }
    let count: u32 = (x1 - x0) * (y1 - y0);
    proof {
        assert((y1 - y0) * (x1 - x0) == (x1 - x0) * (y1 - y0)) by (nonlinear_arith);
        assert(sum as int / (count as int) <= 255) by (nonlinear_arith)
            requires
                sum <= 255 * count,
                count > 0,
        ;
    }
    (sum / count) as u8
}

/// A master reduced to `n` by `n` pixels, each the mean of the master pixels under it. Past
/// [`MAX_EDGE`] the last pixel could round to a place beyond the master.
pub fn downsample(master: &Vec<u8>, n: u32) -> (out: Vec<u8>)
    requires
        master.len() == 4096,
        0 < n <= MAX_EDGE,
        n * n <= usize::MAX,
    ensures
        out.len() == n * n,
        forall|x: int, y: int|
            0 <= x < n && 0 <= y < n ==> is_coverage(
                master@,
                n as nat,
                x as nat,
                y as nat,
                #[trigger] out@[y * n + x] as int,
            ),
{
    let mut out: Vec<u8> = Vec::new();
    let mut y: u32 = 0;
    assert(0 * n == 0) by (nonlinear_arith);
    while y < n
        invariant
            master.len() == 4096,
            0 < n <= MAX_EDGE,
            y <= n,
            out.len() == y * n,
            forall|i: int, j: int|
                0 <= i < n && 0 <= j < y ==> is_coverage(
                    master@,
                    n as nat,
                    i as nat,
                    j as nat,
                    #[trigger] out@[j * n + i] as int,
                ),
        decreases n - y,
    {
        let (y0, y1) = footprint(y, n);
        let mut x: u32 = 0;
        while x < n
            invariant
                master.len() == 4096,
                0 < n <= MAX_EDGE,
                x <= n,
                y < n,
                y0 < y1 <= 64,
                is_footprint(y as nat, n as nat, y0 as nat, y1 as nat),
                out.len() == y * n + x,
                forall|i: int, j: int|
                    0 <= i < n && 0 <= j < y ==> is_coverage(
                        master@,
                        n as nat,
                        i as nat,
                        j as nat,
                        #[trigger] out@[j * n + i] as int,
                    ),
                forall|i: int|
                    0 <= i < x ==> is_coverage(
                        master@,
                        n as nat,
                        i as nat,
                        y as nat,
                        #[trigger] out@[y * n + i] as int,
                    ),
            decreases n - x,
        {
            let (x0, x1) = footprint(x, n);
            let v = mean(master, x0, x1, y0, y1);
            assert(is_footprint(x as nat, n as nat, x0 as nat, x1 as nat));
            assert(is_coverage(master@, n as nat, x as nat, y as nat, v as int));
            let ghost was = out@;
            out.push(v);
            proof {
                assert forall|i: int, j: int| 0 <= i < n && 0 <= j < y implies is_coverage(
                    master@,
                    n as nat,
                    i as nat,
                    j as nat,
                    #[trigger] out@[j * n + i] as int,
                ) by {
                    lemma_cell_before(i, j, n as int, y as int);
                    assert(out@[j * n + i] == was[j * n + i]);
                }
                assert forall|i: int| 0 <= i < x + 1 implies is_coverage(
                    master@,
                    n as nat,
                    i as nat,
                    y as nat,
                    #[trigger] out@[y * n + i] as int,
                ) by {
                    if i < x {
                        assert(out@[y * n + i] == was[y * n + i]);
                    }
                }
            }
            x += 1;
        }
        proof {
            assert((y + 1) * n == y * n + n) by (nonlinear_arith);
            assert forall|i: int, j: int| 0 <= i < n && 0 <= j < y + 1 implies is_coverage(
                master@,
                n as nat,
                i as nat,
                j as nat,
                #[trigger] out@[j * n + i] as int,
            ) by {
                if j == y {
                    assert(out@[j * n + i] == out@[y * n + i]);
                }
            }
        }
        y += 1;
    }
    out
}

proof fn lemma_cell_before(i: int, j: int, n: int, rows: int)
    requires
        0 <= i < n,
        0 <= j < rows,
    ensures
        0 <= j * n + i < rows * n,
{
    assert(0 <= j * n + i < rows * n) by (nonlinear_arith)
        requires
            0 <= i < n,
            0 <= j < rows,
    ;
}

/// The coverage masks, one per icon.
pub open spec fn are_masters(masters: Seq<Vec<u8>>) -> bool {
    masters.len() == COUNT && forall|i: int|
        0 <= i < masters.len() ==> (#[trigger] masters[i])@.len() == 4096
}

/// The edge that a strip is made for.
pub open spec fn edge_of(icon_px: usize) -> int {
    if icon_px > 1 {
        icon_px as int
    } else {
        1
    }
}

/// Build the strip for an icon edge of `icon_px`: as many cells as icons wide, one edge tall, every
/// texel white with the mask's coverage as alpha. Gives the pixels and the strip's width.
pub fn atlas(icon_px: usize, masters: &Vec<Vec<u8>>) -> (r: (Vec<u8>, usize))
    requires
        are_masters(masters@),
        icon_px <= MAX_EDGE,
        edge_of(icon_px) * COUNT * edge_of(icon_px) * 4 <= usize::MAX,
    ensures
        r.1 == edge_of(icon_px) * COUNT,
        r.0.len() == r.1 * edge_of(icon_px) * 4,
        forall|k: int|
            0 <= k < r.1 * edge_of(icon_px) ==> is_strip_texel(
                masters@,
                edge_of(icon_px),
                #[trigger] (k / r.1 as int),
                k % r.1 as int,
                r.0@.subrange(4 * k, 4 * k + 4),
            ),
{
    let n: usize = if icon_px > 1 {
        icon_px
    } else {
        1
    };
    proof {
        assert(n * COUNT <= n * COUNT * n * 4 && n * COUNT * n <= n * COUNT * n * 4 && n * n <= n
            * COUNT * n * 4) by (nonlinear_arith)
            requires
                n >= 1,
                COUNT == 28,
        ;
    }
    let w: usize = n * COUNT;
    let mut masks: Vec<Vec<u8>> = Vec::new();
    let mut i: usize = 0;
    while i < COUNT
        invariant
            are_masters(masters@),
            1 <= n <= MAX_EDGE,
            n * n <= usize::MAX,
            i <= COUNT,
            masks.len() == i,
            forall|c: int|
                0 <= c < i ==> is_mask(masters@[c]@, n as int, (#[trigger] masks@[c])@),
        decreases COUNT - i,
    {
        let mask = downsample(&masters[i], n as u32);
        assert(is_mask(masters@[i as int]@, n as int, mask@));
        masks.push(mask);
        i += 1;
    }
    let mut px: Vec<u8> = Vec::new();
    let mut y: usize = 0;
    assert(4 * (0 * w) == 0) by (nonlinear_arith);
    while y < n
        invariant
            1 <= n <= MAX_EDGE,
            w == n * COUNT,
            w * n * 4 <= usize::MAX,
            y <= n,
            masks.len() == COUNT,
            forall|c: int|
                0 <= c < COUNT ==> is_mask(masters@[c]@, n as int, (#[trigger] masks@[c])@),
            px.len() == 4 * (y * w),
            forall|k: int|
                0 <= k < y * w ==> is_strip_texel(
                    masters@,
                    n as int,
                    #[trigger] (k / w as int),
                    k % w as int,
                    px@.subrange(4 * k, 4 * k + 4),
                ),
        decreases n - y,
    {
        let mut x: usize = 0;
        while x < w
            invariant
                1 <= n <= MAX_EDGE,
                w == n * COUNT,
                w * n * 4 <= usize::MAX,
                y < n,
                x <= w,
                masks.len() == COUNT,
                forall|c: int|
                    0 <= c < COUNT ==> is_mask(masters@[c]@, n as int, (#[trigger] masks@[c])@),
                px.len() == 4 * (y * w + x),
                forall|k: int|
                    0 <= k < y * w + x ==> is_strip_texel(
                        masters@,
                        n as int,
                        #[trigger] (k / w as int),
                        k % w as int,
                        px@.subrange(4 * k, 4 * k + 4),
                    ),
            decreases w - x,
        {
            let c = x / n;
            let cx = x % n;
            proof {
                vstd::arithmetic::div_mod::lemma_fundamental_div_mod(x as int, n as int);
                assert(c < COUNT) by (nonlinear_arith)
                    requires
                        x == n * c + cx,
                        x < n * 28,
                        cx >= 0,
                        n >= 1,
                        COUNT == 28,
                ;
                lemma_cell_before(cx as int, y as int, n as int, n as int);
                assert(n * n <= w * n * 4) by (nonlinear_arith)
                    requires
                        w == n * COUNT,
                        COUNT == 28,
                        n >= 1,
                ;
            }
            let v = masks[c][y * n + cx];
            let ghost was = px@;
            px.push(255);
            px.push(255);
            px.push(255);
            px.push(v);
            proof {
                let k = y * w + x;
                vstd::arithmetic::div_mod::lemma_fundamental_div_mod_converse(
                    k,
                    w as int,
                    y as int,
                    x as int,
                );
                assert(px@.subrange(4 * k, 4 * k + 4) =~= seq![255u8, 255u8, 255u8, v]);
                assert(is_coverage(
                    masters@[c as int]@,
                    n as nat,
                    cx as nat,
                    y as nat,
                    masks@[c as int]@[y * n + cx] as int,
                ));
                assert(is_strip_texel(
                    masters@,
                    n as int,
                    y as int,
                    x as int,
                    px@.subrange(4 * k, 4 * k + 4),
                ));
                assert forall|m: int| 0 <= m < y * w + x + 1 implies is_strip_texel(
                    masters@,
                    n as int,
                    #[trigger] (m / w as int),
                    m % w as int,
                    px@.subrange(4 * m, 4 * m + 4),
                ) by {
                    if m < k {
                        assert(px@.subrange(4 * m, 4 * m + 4) =~= was.subrange(4 * m, 4 * m + 4));
                    }
                }
            }
            x += 1;
        }
        assert((y + 1) * w == y * w + w) by (nonlinear_arith);
        y += 1;
    }
    assert(4 * (n * w) == w * n * 4) by (nonlinear_arith);
    assert(n * w == w * n) by (nonlinear_arith);
    (px, w)
}

/// `mask` is a master reduced to `n` by `n` pixels.
pub open spec fn is_mask(master: Seq<u8>, n: int, mask: Seq<u8>) -> bool {
    &&& mask.len() == n * n
    &&& forall|x: int, y: int|
        0 <= x < n && 0 <= y < n ==> is_coverage(
            master,
            n as nat,
            x as nat,
            y as nat,
            #[trigger] mask[y * n + x] as int,
        )
}

/// The four bytes of the strip's texel `(x, y)`: white, with the coverage of the icon whose cell it
/// lies in.
pub open spec fn is_strip_texel(masters: Seq<Vec<u8>>, n: int, y: int, x: int, texel: Seq<u8>) -> bool {
    &&& texel.len() == 4
    &&& texel[0] == 255 && texel[1] == 255 && texel[2] == 255
    &&& is_coverage(
        masters[x / n]@,
        n as nat,
        (x % n) as nat,
        y as nat,
        texel[3] as int,
    )
}

/// The picture of an icon is stored row by row: the sum over one cell is that cell, and a box
/// splits into the boxes on either side of a column or a row.
pub proof fn law_boxes_add_up(master: Seq<u8>, x0: int, x: int, x1: int, y0: int, y: int, y1: int)
    requires
        x0 <= x <= x1,
        y0 <= y <= y1,
    ensures
        rect_sum(master, x, x + 1, y, y + 1) == master[y * 64 + x],
        rect_sum(master, x0, x1, y0, y1) == rect_sum(master, x0, x, y0, y1) + rect_sum(
            master,
            x,
            x1,
            y0,
            y1,
        ),
        rect_sum(master, x0, x1, y0, y1) == rect_sum(master, x0, x1, y0, y) + rect_sum(
            master,
            x0,
            x1,
            y,
            y1,
        ),
{
    reveal_with_fuel(rect_sum, 2);
    reveal_with_fuel(row_sum, 2);
    lemma_columns_add_up(master, x0, x, x1, y0, y1);
    lemma_rows_add_up(master, x0, x1, y0, y, y1);
}

proof fn lemma_row_adds_up(master: Seq<u8>, y: int, x0: int, x: int, x1: int)
    requires
        x0 <= x <= x1,
    ensures
        row_sum(master, y, x0, x1) == row_sum(master, y, x0, x) + row_sum(master, y, x, x1),
    decreases x1 - x,
{
    if x < x1 {
        lemma_row_adds_up(master, y, x0, x, x1 - 1);
    }
}

proof fn lemma_columns_add_up(master: Seq<u8>, x0: int, x: int, x1: int, y0: int, y1: int)
    requires
        x0 <= x <= x1,
    ensures
        rect_sum(master, x0, x1, y0, y1) == rect_sum(master, x0, x, y0, y1) + rect_sum(
            master,
            x,
            x1,
            y0,
            y1,
        ),
    decreases y1 - y0,
{
    if y0 < y1 {
        lemma_columns_add_up(master, x0, x, x1, y0, y1 - 1);
        lemma_row_adds_up(master, y1 - 1, x0, x, x1);
    }
}

proof fn lemma_rows_add_up(master: Seq<u8>, x0: int, x1: int, y0: int, y: int, y1: int)
    requires
        y0 <= y <= y1,
    ensures
        rect_sum(master, x0, x1, y0, y1) == rect_sum(master, x0, x1, y0, y) + rect_sum(
            master,
            x0,
            x1,
            y,
            y1,
        ),
    decreases y1 - y,
{
    if y < y1 {
        lemma_rows_add_up(master, x0, x1, y0, y, y1 - 1);
    }
}

/// Icons lie side by side in the strip, in the order of their numbers, all white with their
/// shape in the alpha.
pub proof fn law_icons_lie_side_by_side(
    masters: Seq<Vec<u8>>,
    n: int,
    icon: int,
    x: int,
    y: int,
    texel: Seq<u8>,
)
    requires
        0 <= x < n,
        0 <= icon,
        is_strip_texel(masters, n, y, icon * n + x, texel),
    ensures
        is_coverage(masters[icon]@, n as nat, x as nat, y as nat, texel[3] as int),
        texel.len() == 4,
        texel[0] == 255 && texel[1] == 255 && texel[2] == 255,
{
    vstd::arithmetic::div_mod::lemma_fundamental_div_mod_converse(icon * n + x, n, icon, x);
}

/// An icon has at least one pixel, and otherwise as many as asked for.
pub proof fn law_icons_have_a_pixel(icon_px: usize)
    ensures
        edge_of(icon_px) >= 1,
        icon_px >= 1 ==> edge_of(icon_px) == icon_px,
        icon_px == 0 ==> edge_of(icon_px) == 1,
{
}

/// The first texel starts at the edge, and every texel covers something of the picture and
/// nothing beyond it.
pub proof fn law_footprints_lie_on_the_picture(t: nat, n: nat, s: nat, e: nat)
    requires
        is_footprint(t, n, s, e),
        s < 64,
    ensures
        t == 0 ==> s == 0,
        s < e <= 64,
{
}

/// Whether an icon's file has a name of `n` characters whose own part runs from `first` to
/// `last`.
pub open spec fn is_stem(icon: Icon, n: int, first: char, last: char) -> bool {
    icon_stem(icon).len() == n && icon_stem(icon)[5] == first && icon_stem(icon).last() == last
}

/// Every icon has its own file, told by the length of its name and the letters at its ends; only
/// the backdrops black and grey share theirs with the channels blue and green.
pub proof fn law_icon_files(icon: Icon)
    ensures
        is_stem(icon, 9, 'l', 't') <==> icon == Icon::Left,
        is_stem(icon, 10, 'r', 't') <==> icon == Icon::Right,
        is_stem(icon, 13, 'z', 't') <==> icon == Icon::ZoomOut,
        is_stem(icon, 12, 'z', 'n') <==> icon == Icon::ZoomIn,
        is_stem(icon, 8, 'f', 't') <==> icon == Icon::Fit,
        is_stem(icon, 8, '1', '1') <==> icon == Icon::OneToOne,
        is_stem(icon, 8, 'R', 'B') <==> icon == Icon::Rgb,
        is_stem(icon, 9, 'r', 'a') <==> icon == Icon::Rgba,
        is_stem(icon, 6, 'R', 'R') <==> icon == Icon::R,
        is_stem(icon, 6, 'A', 'A') <==> icon == Icon::A,
        is_stem(icon, 9, 'a', 's') <==> icon == Icon::Aces,
        is_stem(icon, 8, 'e', '+') <==> icon == Icon::EvUp,
        is_stem(icon, 8, 'e', '0') <==> icon == Icon::EvReset,
        is_stem(icon, 8, 'e', '-') <==> icon == Icon::EvDown,
        is_stem(icon, 6, 'W', 'W') <==> icon == Icon::White,
        is_stem(icon, 6, 'C', 'C') <==> icon == Icon::Checker,
        is_stem(icon, 12, 'o', 'e') <==> icon == Icon::Outline,
        is_stem(icon, 14, 'o', 'h') <==> icon == Icon::OpenWith,
        is_stem(icon, 15, 'f', 'n') <==> icon == Icon::Fullscreen,
        is_stem(icon, 13, 'f', 'k') <==> icon == Icon::Flipbook,
        is_stem(icon, 9, 'p', 'y') <==> icon == Icon::Play,
        is_stem(icon, 10, 'p', 'e') <==> icon == Icon::Pause,
        is_stem(icon, 9, 'm', 'e') <==> icon == Icon::More,
        is_stem(icon, 12, 'o', 'n') <==> icon == Icon::Octagon,
        is_stem(icon, 6, 'G', 'G') <==> icon == Icon::G || icon == Icon::Grey,
        is_stem(icon, 6, 'B', 'B') <==> icon == Icon::B || icon == Icon::Black,
        icon_stem(icon).take(5) == seq!['i', 'c', 'o', 'n', '_'],
{
    reveal_strlit("icon_1_1");
    reveal_strlit("icon_A");
    reveal_strlit("icon_B");
    reveal_strlit("icon_C");
    reveal_strlit("icon_G");
    reveal_strlit("icon_R");
    reveal_strlit("icon_RGB");
    reveal_strlit("icon_W");
    reveal_strlit("icon_aces");
    reveal_strlit("icon_ev+");
    reveal_strlit("icon_ev-");
    reveal_strlit("icon_ev0");
    reveal_strlit("icon_fit");
    reveal_strlit("icon_flipbook");
    reveal_strlit("icon_fullscreen");
    reveal_strlit("icon_left");
    reveal_strlit("icon_more");
    reveal_strlit("icon_octagon");
    reveal_strlit("icon_open_with");
    reveal_strlit("icon_outline");
    reveal_strlit("icon_pause");
    reveal_strlit("icon_play");
    reveal_strlit("icon_rgba");
    reveal_strlit("icon_right");
    reveal_strlit("icon_zoom_in");
    reveal_strlit("icon_zoom_out");
    assert(icon_stem(icon).take(5) =~= seq!['i', 'c', 'o', 'n', '_']);
}

proof fn lemma_one_step(t: nat, n: nat, s: nat, x: int, u: nat, y: int)
    requires
        t > 0,
        n > 0,
        is_step(t, n, s, x),
        is_step(t, n, u, y),
    ensures
        s == u,
        x == y,
{
    let (a, b) = choose|sig: nat, exp: int| #[trigger]
        rounds_to(64, n, sig, exp) && rounds_to(t * sig * pow2(up(exp)), pow2(down(exp)), s, x);
    let (c, d) = choose|sig: nat, exp: int| #[trigger]
        rounds_to(64, n, sig, exp) && rounds_to(t * sig * pow2(up(exp)), pow2(down(exp)), u, y);
    crate::ratio::lemma_rounds_once(64, n, a, b, c, d);
    vstd::arithmetic::power2::lemma_pow2_pos(up(b));
    vstd::arithmetic::power2::lemma_pow2_pos(down(b));
    assert(t * a * pow2(up(b)) > 0) by (nonlinear_arith)
        requires
            t > 0,
            a > 0,
            pow2(up(b)) > 0,
    ;
    crate::ratio::lemma_rounds_once(t * a * pow2(up(b)), pow2(down(b)), s, x, u, y);
}

/// Texels that lie side by side cover the picture without a gap, and overlap by one column at
/// most, unless one would otherwise cover nothing.
pub proof fn law_texels_leave_no_gap(t: nat, n: nat, s: nat, e: nat, next: nat)
    requires
        n > 0,
        is_end(t, n, s, e),
        is_start(t + 1, n, next),
        next <= 64,
    ensures
        next <= e,
        e <= next + 1 || e == s + 1,
{
    let (a, x) = choose|sig: nat, exp: int| #[trigger]
        is_step(t + 1, n, sig, exp) && e == (if ceil_of(sig, exp) < s + 1 {
            s + 1
        } else if ceil_of(sig, exp) > 64 {
            64
        } else {
            ceil_of(sig, exp)
        });
    let (b, y) = choose|sig: nat, exp: int| #[trigger]
        is_step(t + 1, n, sig, exp) && next == floor_of(sig, exp);
    lemma_one_step(t + 1, n, a, x, b, y);
    let v = (a * pow2(up(x))) as int;
    let d = pow2(down(x)) as int;
    vstd::arithmetic::power2::lemma_pow2_pos(down(x));
    assert(v / d <= (v + d - 1) / d <= v / d + 1) by (nonlinear_arith)
        requires
            v >= 0,
            d >= 1,
    ;
}

/// A picture of one strength keeps it at every size.
pub proof fn law_solid_icons_stay_solid(master: Seq<u8>, c: u8, x0: int, x1: int, y0: int, y1: int)
    requires
        master.len() == 4096,
        forall|i: int| 0 <= i < 4096 ==> #[trigger] master[i] == c,
        0 <= x0 < x1 <= 64,
        0 <= y0 < y1 <= 64,
    ensures
        rect_sum(master, x0, x1, y0, y1) as int / ((x1 - x0) * (y1 - y0)) == c,
{
    lemma_solid_rect(master, c, x0, x1, y0, y1);
    let area = (x1 - x0) * (y1 - y0);
    assert(area > 0) by (nonlinear_arith)
        requires
            x0 < x1,
            y0 < y1,
            area == (x1 - x0) * (y1 - y0),
    ;
    vstd::arithmetic::div_mod::lemma_div_multiples_vanish(c as int, area);
    vstd::arithmetic::mul::lemma_mul_is_commutative(c as int, area);
}

proof fn lemma_solid_row(master: Seq<u8>, c: u8, y: int, x0: int, x1: int)
    requires
        master.len() == 4096,
        forall|i: int| 0 <= i < 4096 ==> #[trigger] master[i] == c,
        0 <= x0 <= x1 <= 64,
        0 <= y < 64,
    ensures
        row_sum(master, y, x0, x1) == c * (x1 - x0),
    decreases x1 - x0,
{
    if x0 < x1 {
        lemma_solid_row(master, c, y, x0, x1 - 1);
        assert(master[y * 64 + x1 - 1] == c);
        assert(c * (x1 - x0) == c * (x1 - 1 - x0) + c) by (nonlinear_arith);
    } else {
        assert(c * (x1 - x0) == 0) by (nonlinear_arith)
            requires
                x1 == x0,
        ;
    }
}

proof fn lemma_solid_rect(master: Seq<u8>, c: u8, x0: int, x1: int, y0: int, y1: int)
    requires
        master.len() == 4096,
        forall|i: int| 0 <= i < 4096 ==> #[trigger] master[i] == c,
        0 <= x0 <= x1 <= 64,
        0 <= y0 <= y1 <= 64,
    ensures
        rect_sum(master, x0, x1, y0, y1) == c * ((x1 - x0) * (y1 - y0)),
    decreases y1 - y0,
{
    let w = x1 - x0;
    if y0 < y1 {
        lemma_solid_rect(master, c, x0, x1, y0, y1 - 1);
        lemma_solid_row(master, c, y1 - 1, x0, x1);
        assert(c * (w * (y1 - y0)) == c * (w * (y1 - 1 - y0)) + c * w) by (nonlinear_arith);
    } else {
        assert(c * (w * (y1 - y0)) == 0) by (nonlinear_arith)
            requires
                y1 == y0,
        ;
    }
}

} // verus!
