//! Sprite-sheet detection: how the analysis copy samples an image, which lags an axis is searched
//! at, which grids the two periods make, and how content and file name decide together. The
//! statistics over the samples are the caller's; everything they are read at and everything they
//! lead to is here.
use vstd::prelude::*;

use crate::flipbook::{filename_prior, Grid, GRID_MAX};
use crate::image::{bytes_per_texel, PixelFormat};
use crate::ratio::rounded_ratio;

verus! {

/// The longest axis of the analysis copy.
pub const DETECT_MAX_DIM: u32 = 512;

/// Samples read per axis inside each bin.
pub const THUMB_SAMPLES_PER_AXIS: u32 = 2;

/// The smallest cell of the analysis copy that can be a frame.
pub const MIN_CELL_THUMB: usize = 6;

/// Frames along a strip's one axis below which content does not make a strip.
pub const STRIP_MIN_FRAMES: u32 = 3;

/// Which channel the analysis copy samples.
#[derive(Debug, Clone, Copy, PartialEq, Eq, Structural)]
pub enum Signal {
    Luma,
    Alpha,
}

/// How an image is binned into its analysis copy.
#[derive(Debug, Clone, Copy, PartialEq, Eq, Structural)]
pub struct ThumbPlan {
    /// Source pixels per bin, on both axes.
    pub bin: u32,
    /// Distance of the samples inside a bin.
    pub step: u32,
    pub width: u32,
    pub height: u32,
}

pub open spec fn larger(a: int, b: int) -> int {
    if a > b {
        a
    } else {
        b
    }
}

pub open spec fn smaller(a: int, b: int) -> int {
    if a < b {
        a
    } else {
        b
    }
}

/// The source pixels of a bin: as many as bring the longer axis down to the limit.
pub open spec fn bin_size(width: int, height: int) -> int {
    (larger(width, height) + DETECT_MAX_DIM - 1) / DETECT_MAX_DIM as int
}

/// The plan of an image, or none where it is too small to analyse.
pub open spec fn planned(width: u32, height: u32) -> Option<ThumbPlan> {
    if width < 2 || height < 2 {
        None
    } else {
        let b = bin_size(width as int, height as int);
        Some(
            ThumbPlan {
                bin: b as u32,
                step: larger(b / THUMB_SAMPLES_PER_AXIS as int, 1) as u32,
                width: larger(width as int / b, 1) as u32,
                height: larger(height as int / b, 1) as u32,
            },
        )
    }
}

/// Plan the analysis copy of an image: at most 512 pixels on each axis.
pub fn thumb_plan(width: u32, height: u32) -> (r: Option<ThumbPlan>)
    ensures
        r == planned(width, height),
        r matches Some(p) ==> {
            &&& 1 <= p.bin
            &&& 1 <= p.step <= p.bin
            &&& 1 <= p.width <= DETECT_MAX_DIM
            &&& 1 <= p.height <= DETECT_MAX_DIM
        },
{
    if width < 2 || height < 2 {
        return None;
    }
    let longest: u32 = if width > height {
        width
    } else {
        height
    };
    let bin: u32 = (longest - 1) / DETECT_MAX_DIM + 1;
    proof {
        lemma_bins(longest as int, bin as int);
        lemma_axis(width as int, longest as int, bin as int);
        lemma_axis(height as int, longest as int, bin as int);
    }
    let half = bin / THUMB_SAMPLES_PER_AXIS;
    let step: u32 = if half > 1 {
        half
    } else {
        1
    };
    let tw: u32 = if width / bin > 1 {
        width / bin
    } else {
        1
    };
    let th: u32 = if height / bin > 1 {
        height / bin
    } else {
        1
    };
    Some(ThumbPlan { bin, step, width: tw, height: th })
}

proof fn lemma_bins(longest: int, bin: int)
    requires
        longest >= 2,
        bin == (longest - 1) / 512 + 1,
    ensures
        bin == (longest + 511) / 512,
        longest <= 512 * bin,
        bin >= 1,
{
}

proof fn lemma_axis(length: int, longest: int, bin: int)
    requires
        0 <= length <= longest <= 512 * bin,
        bin >= 1,
    ensures
        0 <= length / bin <= 512,
{
    vstd::arithmetic::div_mod::lemma_fundamental_div_mod(length, bin);
    assert(length / bin <= 512) by (nonlinear_arith)
        requires
            length == bin * (length / bin) + length % bin,
            length % bin >= 0,
            length <= 512 * bin,
            bin >= 1,
    ;
    assert(0 <= length / bin) by (nonlinear_arith)
        requires
            length >= 0,
            bin >= 1,
    ;
}

/// How many samples a bin takes along an axis of `length` pixels.
pub open spec fn samples(plan: ThumbPlan, length: int) -> int {
    (smaller(plan.bin as int, length) + plan.step - 1) / plan.step as int
}

/// The pixel of sample `k` in bin `o`.
pub open spec fn sample_pixel(plan: ThumbPlan, o: int, k: int) -> int {
    o * plan.bin + k * plan.step
}

/// The byte at which the sample `(i, j)` of bin `(ox, oy)` lies.
pub open spec fn sample_offset(
    plan: ThumbPlan,
    width: int,
    texel: int,
    ox: int,
    oy: int,
    i: int,
    j: int,
) -> int {
    (sample_pixel(plan, oy, j) * width + sample_pixel(plan, ox, i)) * texel
}

fn sample_count(plan: ThumbPlan, length: u32) -> (n: u32)
    requires
        1 <= plan.step <= plan.bin,
        length >= 1,
    ensures
        n == samples(plan, length as int),
        n >= 1,
{
    let reach: u32 = if plan.bin < length {
        plan.bin
    } else {
        length
    };
    let n: u32 = (reach - 1) / plan.step + 1;
    proof {
        let (r, s) = (reach as int, plan.step as int);
        assert((r + s - 1) / s == (r - 1) / s + 1) by (nonlinear_arith)
            requires
                r >= 1,
                s >= 1,
        ;
        assert((r - 1) / s <= r - 1) by (nonlinear_arith)
            requires
                r >= 1,
                s >= 1,
        ;
    }
    n
}

/// Every sample of every bin lies inside the image.
pub proof fn law_samples_lie_inside(width: u32, height: u32, ox: int, oy: int, i: int, j: int)
    requires
        planned(width, height) is Some,
        0 <= ox < planned(width, height)->0.width,
        0 <= oy < planned(width, height)->0.height,
        0 <= i < samples(planned(width, height)->0, width as int),
        0 <= j < samples(planned(width, height)->0, height as int),
    ensures
        0 <= sample_pixel(planned(width, height)->0, ox, i) < width,
        0 <= sample_pixel(planned(width, height)->0, oy, j) < height,
{
    let plan = planned(width, height)->0;
    let longest = larger(width as int, height as int);
    lemma_bins(longest, (longest - 1) / 512 + 1);
    lemma_axis(width as int, longest, bin_size(width as int, height as int));
    lemma_axis(height as int, longest, bin_size(width as int, height as int));
    assert(bin_size(width as int, height as int) <= longest) by (nonlinear_arith)
        requires
            longest >= 1,
            bin_size(width as int, height as int) == (longest + 511) / 512,
    ;
    lemma_sample_inside(width as int, plan.bin as int, plan.step as int, ox, i);
    lemma_sample_inside(height as int, plan.bin as int, plan.step as int, oy, j);
}

proof fn lemma_sample_inside(length: int, bin: int, step: int, o: int, k: int)
    requires
        length >= 1,
        1 <= step <= bin,
        0 <= o < larger(length / bin, 1),
        0 <= k < (smaller(bin, length) + step - 1) / step,
    ensures
        0 <= o * bin + k * step < length,
{
    let reach = smaller(bin, length);
    vstd::arithmetic::div_mod::lemma_fundamental_div_mod(reach + step - 1, step);
    let n = (reach + step - 1) / step;
    assert(k * step < reach) by (nonlinear_arith)
        requires
            reach + step - 1 == step * n + (reach + step - 1) % step,
            (reach + step - 1) % step >= 0,
            0 <= k < n,
            step >= 1,
    ;
    assert(0 <= k * step && 0 <= o * bin) by (nonlinear_arith)
        requires
            0 <= k,
            0 <= o,
            step >= 1,
            bin >= 1,
    ;
    vstd::arithmetic::div_mod::lemma_fundamental_div_mod(length, bin);
    if length / bin >= 1 {
        assert(o * bin + bin <= length && bin <= length) by (nonlinear_arith)
            requires
                length == bin * (length / bin) + length % bin,
                length % bin >= 0,
                0 <= o < length / bin,
                bin >= 1,
        ;
    } else {
        assert(o * bin == 0) by (nonlinear_arith)
            requires
                o == 0,
        ;
    }
}

/// The byte offsets of the samples of one bin, row by row. Each whole texel lies inside a buffer
/// that holds the image.
pub fn bin_offsets(width: u32, height: u32, format: PixelFormat, ox: u32, oy: u32) -> (out: Vec<
    usize,
>)
    requires
        planned(width, height) matches Some(p) && ox < p.width && oy < p.height,
        width * height * crate::image::texel_bytes(format) <= usize::MAX,
    ensures
        out.len() == samples(planned(width, height)->0, width as int) * samples(
            planned(width, height)->0,
            height as int,
        ),
        forall|i: int, j: int|
            0 <= i < samples(planned(width, height)->0, width as int) && 0 <= j < samples(
                planned(width, height)->0,
                height as int,
            ) ==> #[trigger] out@[j * samples(planned(width, height)->0, width as int) + i]
                == sample_offset(
                planned(width, height)->0,
                width as int,
                crate::image::texel_bytes(format) as int,
                ox as int,
                oy as int,
                i,
                j,
            ),
        forall|k: int|
            0 <= k < out.len() ==> (#[trigger] out@[k]) + crate::image::texel_bytes(format) <= width
                * height * crate::image::texel_bytes(format),
{
    let texel = bytes_per_texel(format);
    let mut out: Vec<usize> = Vec::new();
    match thumb_plan(width, height) {
        None => {},
        Some(plan) => {
            let nx = sample_count(plan, width);
            let ny = sample_count(plan, height);
            let mut j: u32 = 0;
            assert(0 * nx == 0) by (nonlinear_arith);
            while j < ny
                invariant
                    planned(width, height) == Some(plan),
                    1 <= plan.step <= plan.bin,
                    ox < plan.width,
                    oy < plan.height,
                    texel == crate::image::texel_bytes(format),
                    width * height * texel <= usize::MAX,
                    nx == samples(plan, width as int),
                    ny == samples(plan, height as int),
                    j <= ny,
                    out.len() == j * nx,
                    forall|a: int, b: int|
                        0 <= a < nx && 0 <= b < j ==> #[trigger] out@[b * nx + a] == sample_offset(
                            plan,
                            width as int,
                            texel as int,
                            ox as int,
                            oy as int,
                            a,
                            b,
                        ),
                    forall|k: int|
                        0 <= k < out.len() ==> (#[trigger] out@[k]) + texel <= width * height
                            * texel,
                decreases ny - j,
            {
                let mut i: u32 = 0;
                while i < nx
                    invariant
                        planned(width, height) == Some(plan),
                        1 <= plan.step <= plan.bin,
                        ox < plan.width,
                        oy < plan.height,
                        texel == crate::image::texel_bytes(format),
                        width * height * texel <= usize::MAX,
                        nx == samples(plan, width as int),
                        ny == samples(plan, height as int),
                        j < ny,
                        i <= nx,
                        out.len() == j * nx + i,
                        forall|a: int, b: int|
                            0 <= a < nx && 0 <= b < j ==> #[trigger] out@[b * nx + a]
                                == sample_offset(
                                plan,
                                width as int,
                                texel as int,
                                ox as int,
                                oy as int,
                                a,
                                b,
                            ),
                        forall|a: int|
                            0 <= a < i ==> #[trigger] out@[j * nx + a] == sample_offset(
                                plan,
                                width as int,
                                texel as int,
                                ox as int,
                                oy as int,
                                a,
                                j as int,
                            ),
                        forall|k: int|
                            0 <= k < out.len() ==> (#[trigger] out@[k]) + texel <= width * height
                                * texel,
                    decreases nx - i,
                {
                    proof {
                        law_samples_lie_inside(
                            width,
                            height,
                            ox as int,
                            oy as int,
                            i as int,
                            j as int,
                        );
                        lemma_products(oy as int, plan.bin as int, j as int, plan.step as int, height as int);
                        lemma_products(ox as int, plan.bin as int, i as int, plan.step as int, width as int);
                    }
                    let y: u32 = oy * plan.bin + j * plan.step;
                    let x: u32 = ox * plan.bin + i * plan.step;
                    proof {
                        lemma_texel_inside(
                            x as int,
                            y as int,
                            width as int,
                            height as int,
                            texel as int,
                        );
                    }
                    let off: usize = (y as usize * width as usize + x as usize) * texel;
                    let ghost was = out@;
                    out.push(off);
                    proof {
                        assert forall|a: int, b: int| 0 <= a < nx && 0 <= b < j implies #[trigger] out@[b
                            * nx + a] == sample_offset(
                            plan,
                            width as int,
                            texel as int,
                            ox as int,
                            oy as int,
                            a,
                            b,
                        ) by {
                            assert(0 <= b * nx + a < j * nx) by (nonlinear_arith)
                                requires
                                    0 <= a < nx,
                                    0 <= b < j,
                            ;
                            assert(out@[b * nx + a] == was[b * nx + a]);
                        }
                        assert forall|a: int| 0 <= a < i + 1 implies #[trigger] out@[j * nx + a]
                            == sample_offset(
                            plan,
                            width as int,
                            texel as int,
                            ox as int,
                            oy as int,
                            a,
                            j as int,
                        ) by {
                            if a < i {
                                assert(out@[j * nx + a] == was[j * nx + a]);
                            }
                        }
                    }
                    i += 1;
                }
                proof {
                    assert((j + 1) * nx == j * nx + nx) by (nonlinear_arith);
                    assert forall|a: int, b: int| 0 <= a < nx && 0 <= b < j + 1 implies #[trigger] out@[b
                        * nx + a] == sample_offset(
                        plan,
                        width as int,
                        texel as int,
                        ox as int,
                        oy as int,
                        a,
                        b,
                    ) by {
                        if b == j {
                            assert(out@[b * nx + a] == out@[j * nx + a]);
                        }
                    }
                }
                j += 1;
            }
            assert(ny * nx == nx * ny) by (nonlinear_arith);
        },
    }
    out
}

proof fn lemma_products(o: int, bin: int, k: int, step: int, length: int)
    requires
        0 <= o,
        0 <= k,
        0 <= bin,
        0 <= step,
        o * bin + k * step < length,
    ensures
        0 <= o * bin < length,
        0 <= k * step < length,
{
    assert(0 <= o * bin && 0 <= k * step) by (nonlinear_arith)
        requires
            0 <= o,
            0 <= k,
            0 <= bin,
            0 <= step,
    ;
}

proof fn lemma_texel_inside(x: int, y: int, width: int, height: int, texel: int)
    requires
        0 <= x < width,
        0 <= y < height,
        0 < texel,
    ensures
        0 <= y * width <= y * width + x < width * height,
        (y * width + x) * texel + texel <= width * height * texel,
        width * height <= width * height * texel,
        0 <= (y * width + x) * texel,
{
    assert(0 <= y * width && y * width + x + 1 <= width * height) by (nonlinear_arith)
        requires
            0 <= x < width,
            0 <= y < height,
    ;
    let p = y * width + x;
    let n = width * height;
    assert(p * texel + texel <= n * texel && 0 <= p * texel && n <= n * texel) by (nonlinear_arith)
        requires
            0 <= p,
            p + 1 <= n,
            0 < texel,
    ;
}

/// The lags at which an axis profile of `l` samples is compared with itself: none where the
/// profile is too short to hold two cells.
pub open spec fn lags(l: int) -> Option<(int, int)> {
    let low = larger(l / GRID_MAX as int, MIN_CELL_THUMB as int);
    if l < 16 || low >= l / 2 {
        None
    } else {
        Some((low, l / 2))
    }
}

/// The lags searched on an axis: from the smallest cell up to half the profile.
pub fn lag_range(l: usize) -> (r: Option<(usize, usize)>)
    ensures
        r matches Some(p) ==> lags(l as int) == Some((p.0 as int, p.1 as int)),
        r is None ==> lags(l as int) is None,
{
    if l < 16 {
        return None;
    }
    let cell = l / GRID_MAX as usize;
    let low: usize = if cell > MIN_CELL_THUMB {
        cell
    } else {
        MIN_CELL_THUMB
    };
    if low >= l / 2 {
        return None;
    }
    Some((low, l / 2))
}

/// The first lag from `from` below `to` at which the profile dips.
pub open spec fn first_dip(dips: Seq<bool>, from: int, to: int) -> Option<int>
    decreases to - from,
{
    if from >= to {
        None
    } else if dips[from] {
        Some(from)
    } else {
        first_dip(dips, from + 1, to)
    }
}

/// The period of an axis: the first lag searched at which its profile dips.
pub open spec fn period_lag(l: int, dips: Seq<bool>) -> Option<int> {
    match lags(l) {
        Some((low, high)) => first_dip(dips, low, high),
        None => None,
    }
}

/// The cells that a period of `tau` samples makes of an axis of `dim` samples: the ratio in single
/// precision, rounded, from two to all that a grid can have.
pub open spec fn are_cells(dim: u32, tau: int, cells: u32) -> bool {
    exists|q: nat| #[trigger]
        crate::ratio::is_rounded_ratio(dim as nat, tau as nat, q) && cells == smaller(
            larger(q as int, 2),
            GRID_MAX as int,
        )
}

/// The number of cells along an axis, from whether its profile varies at all and the lags at which
/// it lines up with itself. None for a profile that is short, flat or never dips.
pub fn axis_period(l: usize, varies: bool, dips: &Vec<bool>, thumb_dim: u32) -> (r: Option<u32>)
    requires
        l <= u32::MAX,
        lags(l as int) is Some && varies ==> dips.len() >= l / 2,
    ensures
        r is Some <==> varies && period_lag(l as int, dips@) is Some,
        r matches Some(n) ==> are_cells(thumb_dim, period_lag(l as int, dips@)->0, n) && 2 <= n
            <= GRID_MAX,
        r matches Some(n) ==> thumb_dim <= DETECT_MAX_DIM && l <= DETECT_MAX_DIM ==> {
            let tau = period_lag(l as int, dips@)->0;
            n == smaller(larger((2 * thumb_dim + tau) / (2 * tau), 2), GRID_MAX as int)
        },
        r matches Some(n) ==> {
            let tau = period_lag(l as int, dips@)->0;
            6 <= tau && 2 * tau <= l && dips@[tau]
        },
{
    match lag_range(l) {
        None => None,
        Some((low, high)) => {
            if !varies {
                return None;
            }
            let mut tau = low;
            while tau < high
                invariant
                    6 <= tau <= high,
                    high <= dips.len(),
                    high <= u32::MAX,
                    l <= u32::MAX,
                    varies,
                    lags(l as int) == Some((low as int, high as int)),
                    first_dip(dips@, low as int, high as int) == first_dip(
                        dips@,
                        tau as int,
                        high as int,
                    ),
                decreases high - tau,
            {
                if dips[tau] {
                    let q = rounded_ratio(thumb_dim, tau as u32);
                    let cells: u32 = if q < 2 {
                        2
                    } else if q > GRID_MAX {
                        GRID_MAX
                    } else {
                        q
                    };
                    proof {
                        let lag = period_lag(l as int, dips@)->0;
                        assert(lag == tau);
                        assert(crate::ratio::is_rounded_ratio(
                            thumb_dim as nat,
                            lag as nat,
                            q as nat,
                        ));
                    }
                    return Some(cells);
                }
                tau += 1;
            }
            None
        },
    }
}

/// The grid that the periods of the two axes make; one period makes a strip. None where the frames
/// are too few to be an animation.
pub open spec fn candidate(cols: Option<u32>, rows: Option<u32>) -> Option<Grid> {
    match (cols, rows) {
        (Some(c), Some(r)) => Some(Grid { cols: c, rows: r }),
        (Some(c), None) => if c >= STRIP_MIN_FRAMES {
            Some(Grid { cols: c, rows: 1 })
        } else {
            None
        },
        (None, Some(r)) => if r >= STRIP_MIN_FRAMES {
            Some(Grid { cols: 1, rows: r })
        } else {
            None
        },
        (None, None) => None,
    }
}

/// The grid that the periods of the two axes make.
pub fn candidate_grid(cols: Option<u32>, rows: Option<u32>) -> (r: Option<Grid>)
    requires
        cols matches Some(c) ==> 2 <= c <= GRID_MAX,
        rows matches Some(n) ==> 2 <= n <= GRID_MAX,
    ensures
        r == candidate(cols, rows),
        cols is Some && rows is Some ==> (r matches Some(g) && g.cols == cols->0 && g.rows
            == rows->0),
        cols is Some && rows is None ==> (r is Some <==> cols->0 >= 3) && (r matches Some(g)
            ==> g.cols == cols->0 && g.rows == 1),
        cols is None && rows is Some ==> (r is Some <==> rows->0 >= 3) && (r matches Some(g)
            ==> g.rows == rows->0 && g.cols == 1),
        cols is None && rows is None ==> r is None,
{
    let grid = match (cols, rows) {
        (Some(c), Some(n)) => Grid::new(c, n),
        (Some(c), None) => Grid::new(c, 1),
        (None, Some(n)) => Grid::new(1, n),
        (None, None) => return None,
    };
    let (low, high) = if grid.cols < grid.rows {
        (grid.cols, grid.rows)
    } else {
        (grid.rows, grid.cols)
    };
    proof {
        assert(grid.cols * grid.rows <= 4096) by (nonlinear_arith)
            requires
                1 <= grid.cols <= 64,
                1 <= grid.rows <= 64,
        ;
        assert(low >= 2 ==> grid.cols * grid.rows >= 4) by (nonlinear_arith)
            requires
                low <= grid.cols,
                low <= grid.rows,
        ;
        assert(low == 1 ==> grid.cols * grid.rows == high) by (nonlinear_arith)
            requires
                (low == grid.cols && high == grid.rows) || (low == grid.rows && high == grid.cols),
        ;
    }
    if grid.cells() < 4 && !(low == 1 && high >= STRIP_MIN_FRAMES) {
        return None;
    }
    Some(grid)
}

pub open spec fn is_strip(g: Grid) -> bool {
    g.cols == 1 || g.rows == 1
}

/// Whether a candidate stands: not where most cells are empty, not where the cells are alike even
/// half a loop apart, and a strip only where consecutive frames resemble each other.
pub fn accept_grid(grid: Grid, mostly_empty: bool, tiling: bool, frames_alike: bool) -> (r: Option<
    Grid,
>)
    requires
        1 <= grid.cols,
        1 <= grid.rows,
    ensures
        r == if mostly_empty || tiling || (is_strip(grid) && !frames_alike) {
            None
        } else {
            Some(grid)
        },
        r == accepted(grid, mostly_empty, tiling, frames_alike),
{
    if mostly_empty || tiling {
        return None;
    }
    if (grid.cols == 1 || grid.rows == 1) && !frames_alike {
        return None;
    }
    Some(grid)
}

/// The sample at which cell `i` of `n` begins on an axis of `length` samples.
pub open spec fn cell_edge(i: int, length: int, n: int) -> int {
    (2 * (i * length) + n) / (2 * n)
}

/// The samples `from..to` of one cell along an axis.
pub fn cell_span(i: u32, length: u32, n: u32) -> (r: (u32, u32))
    requires
        i < n <= GRID_MAX,
        n <= length <= DETECT_MAX_DIM,
    ensures
        r.0 == cell_edge(i as int, length as int, n as int),
        r.1 == cell_edge(i + 1, length as int, n as int),
        r.0 < r.1 <= length,
{
    proof {
        assert(i * length <= 32768 && (i + 1) * length <= 32768) by (nonlinear_arith)
            requires
                i < n <= 64,
                length <= 512,
        ;
        law_cells_tile(i as int, length as int, n as int);
    }
    let from = rounded_ratio(i * length, n);
    let to = rounded_ratio((i + 1) * length, n);
    (from, if to > from {
        to
    } else {
        from + 1
    })
}

/// The cells of an axis follow one another without a gap from its first sample to its last, and
/// none is empty.
pub proof fn law_cells_tile(i: int, length: int, n: int)
    requires
        0 <= i < n <= length,
    ensures
        cell_edge(0, length, n) == 0,
        cell_edge(n, length, n) == length,
        0 <= cell_edge(i, length, n) < cell_edge(i + 1, length, n) <= length,
{
    let d = 2 * n;
    assert(0 * length == 0) by (nonlinear_arith);
    assert((2 * 0 + n) / d == 0) by (nonlinear_arith)
        requires
            d == 2 * n,
            n > 0,
    ;
    assert((2 * (n * length) + n) / d == length) by (nonlinear_arith)
        requires
            d == 2 * n,
            n > 0,
    ;
    let a = 2 * (i * length) + n;
    let b = 2 * ((i + 1) * length) + n;
    assert(b == a + 2 * length) by (nonlinear_arith)
        requires
            a == 2 * (i * length) + n,
            b == 2 * ((i + 1) * length) + n,
    ;
    assert(0 <= a) by (nonlinear_arith)
        requires
            a == 2 * (i * length) + n,
            i >= 0,
            length >= 0,
            n >= 0,
    ;
    assert(a / d >= 0 && (a + d) / d == a / d + 1) by (nonlinear_arith)
        requires
            a >= 0,
            d > 0,
    ;
    vstd::arithmetic::div_mod::lemma_div_is_ordered(a + d, b, d);
    let top = 2 * (n * length) + n;
    assert(b <= top) by (nonlinear_arith)
        requires
            b == 2 * ((i + 1) * length) + n,
            top == 2 * (n * length) + n,
            i + 1 <= n,
            length >= 0,
    ;
    vstd::arithmetic::div_mod::lemma_div_is_ordered(b, top, d);
}

/// The samples of bin `b` of the eight along one axis of a cell; each bin has at least one.
pub fn descriptor_span(from: u32, to: u32, b: u32) -> (r: (u32, u32))
    requires
        from < to,
        (to - from) * 8 <= u32::MAX,
        b < 8,
    ensures
        r.0 == from + b * (to - from) / 8,
        r.1 == larger(from + (b + 1) * (to - from) / 8, r.0 + 1),
        from <= r.0 < r.1 <= to,
        b == 0 ==> r.0 == from,
        b == 7 ==> r.1 == to,
        8 * (r.0 - from) <= b * (to - from) < 8 * (r.0 - from) + 8,
{
    let span = to - from;
    proof {
        assert(b * span <= 7 * span && (b + 1) * span <= 8 * span && b * span >= 0 && (b + 1) * span
            >= 0) by (nonlinear_arith)
            requires
                b < 8,
                span >= 0,
        ;
    }
    let low = from + b * span / 8;
    let high = from + (b + 1) * span / 8;
    (low, if high > low {
        high
    } else {
        low + 1
    })
}

/// How far apart the cells compared for a tiling lie: half the loop.
pub fn half_loop(cells: usize) -> (n: usize)
    ensures
        n == larger(cells as int / 2, 1),
        n >= 1,
        cells >= 2 ==> 2 * n <= cells <= 2 * n + 1,
{
    if cells / 2 > 1 {
        cells / 2
    } else {
        1
    }
}

/// What the pixels show: the grid of the luminance, else the grid of the alpha channel where there
/// is transparency.
pub fn content_grid(luma: Option<Grid>, alpha_opaque: bool, alpha: Option<Grid>) -> (r: Option<Grid>)
    ensures
        r == if luma is Some || alpha_opaque {
            luma
        } else {
            alpha
        },
        r == read_off(luma, alpha_opaque, alpha),
{
    match luma {
        Some(g) => Some(g),
        None => if alpha_opaque {
            None
        } else {
            alpha
        },
    }
}

/// The grid of a sheet: what its pixels show; its file name only where they show none.
pub fn detect(path: &str, content: Option<Grid>) -> (r: Option<Grid>)
    ensures
        content is Some ==> r == content,
        content is None ==> r == match crate::paths::path_file_stem(path@) {
            Some(stem) => crate::flipbook::stem_grid(stem),
            None => None,
        },
{
    match content {
        Some(g) => Some(g),
        None => filename_prior(path),
    }
}

/// The columns of a grid are counted across and its rows down: two periods make a sheet of exactly
/// that many, one period a strip along its own axis, which needs three frames, and exchanging the
/// axes transposes the grid.
pub proof fn law_grid_follows_its_axes(cols: Option<u32>, rows: Option<u32>)
    ensures
        cols is Some && rows is Some ==> (candidate(cols, rows) matches Some(g) && g.cols == cols->0
            && g.rows == rows->0),
        cols is Some && rows is None ==> (candidate(cols, rows) is Some <==> cols->0 >= 3),
        cols is None && rows is Some ==> (candidate(cols, rows) is Some <==> rows->0 >= 3),
        candidate(cols, rows) matches Some(g) ==> (cols is None ==> g.cols == 1) && (rows is None
            ==> g.rows == 1) && (cols matches Some(c) ==> g.cols == c) && (rows matches Some(n)
            ==> g.rows == n),
        candidate(cols, rows) is Some ==> cols is Some || rows is Some,
        candidate(rows, cols) == (match candidate(cols, rows) {
            Some(g) => Some(Grid { cols: g.rows, rows: g.cols }),
            None => None,
        }),
{
}

/// The bins of the analysis copy are the smallest that bring the longer axis down to 512, the same
/// on both axes; a bin is sampled twice along each axis where it is wide enough, and the copy has as
/// many pixels as whole bins fit.
pub proof fn law_copy_fits_its_limit(width: u32, height: u32)
    ensures
        planned(width, height) is None <==> width < 2 || height < 2,
        planned(width, height) matches Some(p) ==> {
            &&& width <= 512 * p.bin && height <= 512 * p.bin
            &&& width > 512 * (p.bin - 1) || height > 512 * (p.bin - 1)
            &&& p.bin >= 1
            &&& p.bin < 2 ==> p.step == 1
            &&& p.bin >= 2 ==> 2 * p.step <= p.bin <= 2 * p.step + 1
            &&& width >= p.bin ==> p.width * p.bin <= width < (p.width + 1) * p.bin
            &&& height >= p.bin ==> p.height * p.bin <= height < (p.height + 1) * p.bin
            &&& width < p.bin ==> p.width == 1
            &&& height < p.bin ==> p.height == 1
        },
{
    if width >= 2 && height >= 2 {
        let longest = larger(width as int, height as int);
        let b = bin_size(width as int, height as int);
        lemma_bins(longest, (longest - 1) / 512 + 1);
        lemma_axis(width as int, longest, b);
        lemma_axis(height as int, longest, b);
        lemma_whole_bins(width as int, b);
        lemma_whole_bins(height as int, b);
    }
}

proof fn lemma_whole_bins(length: int, bin: int)
    requires
        length >= 1,
        bin >= 1,
    ensures
        length >= bin ==> length / bin >= 1,
        length < bin ==> length / bin == 0,
        (length / bin) * bin <= length < (length / bin + 1) * bin,
{
    let q = length / bin;
    vstd::arithmetic::div_mod::lemma_fundamental_div_mod(length, bin);
    vstd::arithmetic::div_mod::lemma_mod_bound(length, bin);
    assert(q * bin <= length < (q + 1) * bin) by (nonlinear_arith)
        requires
            length == bin * q + length % bin,
            0 <= length % bin < bin,
    ;
    if length >= bin {
        assert(q >= 1) by (nonlinear_arith)
            requires
                length < (q + 1) * bin,
                length >= bin,
                bin >= 1,
        ;
    } else {
        vstd::arithmetic::div_mod::lemma_basic_div(length, bin);
    }
}

/// Samples lie a step apart inside their bin, bins lie side by side, and a sample's byte is found
/// row by row.
pub proof fn law_samples_lie_in_rows(
    plan: ThumbPlan,
    width: int,
    texel: int,
    ox: int,
    oy: int,
    i: int,
    j: int,
)
    ensures
        sample_pixel(plan, ox, 0) == ox * plan.bin,
        sample_pixel(plan, ox, i + 1) - sample_pixel(plan, ox, i) == plan.step,
        sample_pixel(plan, ox + 1, i) - sample_pixel(plan, ox, i) == plan.bin,
        sample_offset(plan, width, texel, 0, 0, 0, 0) == 0,
        sample_offset(plan, width, texel, ox, oy, i + 1, j) - sample_offset(
            plan,
            width,
            texel,
            ox,
            oy,
            i,
            j,
        ) == plan.step * texel,
        sample_offset(plan, width, texel, ox, oy, i, j + 1) - sample_offset(
            plan,
            width,
            texel,
            ox,
            oy,
            i,
            j,
        ) == plan.step * width * texel,
{
    assert(0 * plan.step == 0 && 0 * plan.bin == 0 && 0 * width == 0 && 0 * texel == 0)
        by (nonlinear_arith);
    assert((i + 1) * plan.step == i * plan.step + plan.step) by (nonlinear_arith);
    assert((j + 1) * plan.step == j * plan.step + plan.step) by (nonlinear_arith);
    assert((ox + 1) * plan.bin == ox * plan.bin + plan.bin) by (nonlinear_arith);
    let (x, y, s) = (sample_pixel(plan, ox, i), sample_pixel(plan, oy, j), plan.step as int);
    assert((y * width + (x + s)) * texel - (y * width + x) * texel == s * texel)
        by (nonlinear_arith);
    assert(((y + s) * width + x) * texel - (y * width + x) * texel == s * width * texel)
        by (nonlinear_arith);
}

/// A bin is sampled to its end and not past it, nor past the end of the image.
pub proof fn law_bins_are_sampled_to_their_end(plan: ThumbPlan, length: int)
    requires
        plan.step >= 1,
        plan.bin >= 1,
        length >= 1,
    ensures
        samples(plan, length) >= 1,
        (samples(plan, length) - 1) * plan.step < length,
        (samples(plan, length) - 1) * plan.step < plan.bin,
        samples(plan, length) * plan.step >= plan.bin || samples(plan, length) * plan.step >= length,
{
    let (s, reach) = (plan.step as int, smaller(plan.bin as int, length));
    let n = samples(plan, length);
    vstd::arithmetic::div_mod::lemma_fundamental_div_mod(reach + s - 1, s);
    vstd::arithmetic::div_mod::lemma_mod_bound(reach + s - 1, s);
    let m = (reach + s - 1) % s;
    assert((n - 1) * s < reach && n * s >= reach && n >= 1) by (nonlinear_arith)
        requires
            reach + s - 1 == s * n + m,
            0 <= m < s,
            reach >= 1,
    ;
}

/// An axis is searched for cells of at least six samples, no more than 64 of them and at least two.
pub proof fn law_lags_leave_room_for_cells(l: int)
    requires
        l >= 0,
    ensures
        lags(l) matches Some(r) ==> {
            &&& 6 <= r.0 < r.1
            &&& 2 * r.1 <= l <= 2 * r.1 + 1
            &&& l < 64 * (r.0 + 1)
            &&& r.0 == 6 || 64 * r.0 <= l
        },
        l < 16 ==> lags(l) is None,
        16 <= l < 448 ==> lags(l) == Some((6int, l / 2)),
{
}

/// The lag found is the first that dips: it dips, none before it does, and where none is found none
/// dips at all.
pub proof fn law_first_dip_is_first(dips: Seq<bool>, from: int, to: int, k: int)
    ensures
        first_dip(dips, from, to) matches Some(d) ==> from <= d < to && dips[d] && (from <= k < d
            ==> !dips[k]),
        first_dip(dips, from, to) is None && from <= k < to ==> !dips[k],
    decreases to - from,
{
    if from < to && !dips[from] {
        law_first_dip_is_first(dips, from + 1, to, k);
    }
}

/// The grid that stands up to the three verdicts.
pub open spec fn accepted(grid: Grid, mostly_empty: bool, tiling: bool, frames_alike: bool) -> Option<Grid> {
    if !mostly_empty && !tiling && (frames_alike || !is_strip(grid)) {
        Some(grid)
    } else {
        None
    }
}

/// A grid is taken as it is or not at all. One that is mostly empty or a tiling never is; frames
/// that differ speak against a strip alone, which is one row or one column.
pub proof fn law_grids_stand_or_fall(
    grid: Grid,
    mostly_empty: bool,
    tiling: bool,
    frames_alike: bool,
)
    ensures
        ({
            let r = accepted(grid, mostly_empty, tiling, frames_alike);
            &&& r matches Some(g) ==> g == grid
            &&& mostly_empty || tiling ==> r is None
            &&& !mostly_empty && !tiling && frames_alike ==> r == Some(grid)
            &&& !mostly_empty && !tiling && grid.cols > 1 && grid.rows > 1 ==> r == Some(grid)
            &&& !frames_alike && (grid.cols == 1 || grid.rows == 1) ==> r is None
            &&& r == accepted(
                Grid { cols: grid.rows, rows: grid.cols },
                mostly_empty,
                tiling,
                frames_alike,
            ) || r is Some
        }),
{
}

/// The grid that the picture itself shows.
pub open spec fn read_off(luma: Option<Grid>, alpha_opaque: bool, alpha: Option<Grid>) -> Option<Grid> {
    match luma {
        Some(_) => luma,
        None => if !alpha_opaque {
            alpha
        } else {
            None
        },
    }
}

/// What the light shows comes first; the shape is asked only where it is none and only where
/// there is a shape to see.
pub proof fn law_light_comes_before_shape(luma: Option<Grid>, opaque: bool, alpha: Option<Grid>)
    ensures
        luma is Some ==> read_off(luma, opaque, alpha) == luma,
        luma is None && opaque ==> read_off(luma, opaque, alpha) is None,
        luma is None && !opaque ==> read_off(luma, opaque, alpha) == alpha,
        read_off(luma, true, alpha) == read_off(luma, true, None),
{
}

/// A period is looked for among the lags that leave room for cells, shortest first.
pub proof fn law_period_is_the_shortest_lag(l: int, dips: Seq<bool>, k: int)
    requires
        l >= 0,
    ensures
        period_lag(l, dips) matches Some(t) ==> {
            &&& lags(l) is Some
            &&& (lags(l)->0).0 <= t < (lags(l)->0).1
            &&& dips[t]
            &&& (lags(l)->0).0 <= k < t ==> !dips[k]
        },
        l < 16 ==> period_lag(l, dips) is None,
{
    if lags(l) is Some {
        let (low, high) = lags(l)->0;
        law_first_dip_is_first(dips, low, high, k);
    }
}

/// A sheet is cut into two to sixty-four cells, whatever the lag.
pub proof fn law_cell_counts_fit(dim: u32, tau: int, cells: u32)
    requires
        are_cells(dim, tau, cells),
    ensures
        2 <= cells <= 64,
{
}

} // verus!
