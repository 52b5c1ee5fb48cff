//! Flipbook mode: a still image laid out as a grid of animation frames, row by row.
//!
//! The per-image state and its invariants, the frame arithmetic of the renderer, the grid token of
//! a file name, and the sampling plan and decisions of grid detection.
use crate::config::{FlipbookCfg, FPS_DEFAULT, FPS_MAX, FPS_MIN};
use crate::natural::{lemma_number_take, number};
use crate::paths::{file_stem_of, path_file_stem};
use crate::ratio::{as_single, is_rounded_ratio, is_single_of, rounded_ratio};
use crate::single::{clamp_finite, clamped, is_finite, rank, Single};
use crate::text::{chars_of, is_digit};
use crate::wrap::{
    fraction, is_fraction, is_remainder, is_wrapped, remainder, whole_part, wrapped,
};
use vstd::prelude::*;

verus! {

/// Inclusive bounds on a grid axis. A 1×1 grid is no grid.
pub const GRID_MIN: u32 = 1;
pub const GRID_MAX: u32 = 64;

/// A grid: `cols` across, `rows` down. Frame `i` lies in column `i % cols` of row `i / cols`.
#[derive(Debug, Clone, Copy, PartialEq, Eq, Structural)]
pub struct Grid {
    pub cols: u32,
    pub rows: u32,
}

/// The number of cells of a grid, capped to 32 bits.
pub open spec fn cell_count(g: Grid) -> int {
    if g.cols * g.rows <= u32::MAX {
        g.cols * g.rows
    } else {
        u32::MAX as int
    }
}

impl Grid {
    /// The grid of these dimensions.
    pub fn new(cols: u32, rows: u32) -> (g: Self)
        ensures
            g == (Grid { cols, rows }),
    {
        Grid { cols, rows }
    }

    /// The number of cells, the default and largest frame count.
    pub fn cells(self) -> (n: u32)
        ensures
            n == cell_count(self),
    {
        proof {
            assert(self.cols * self.rows <= 0xffff_ffff * 0xffff_ffff) by (nonlinear_arith)
                requires
                    0 <= self.cols <= 0xffff_ffff,
                    0 <= self.rows <= 0xffff_ffff,
            ;
            assert(self.cols * self.rows >= 0) by (nonlinear_arith)
                requires
                    0 <= self.cols,
                    0 <= self.rows,
            ;
        }
        let n = self.cols as u64 * self.rows as u64;
        if n <= u32::MAX as u64 {
            n as u32
        } else {
            u32::MAX
        }
    }
}

pub open spec fn within(v: u32, lo: u32, hi: u32) -> u32 {
    if v < lo {
        lo
    } else if v > hi {
        hi
    } else {
        v
    }
}

fn clamp_u32(v: u32, lo: u32, hi: u32) -> (r: u32)
    ensures
        r == within(v, lo, hi),
{
    if v < lo {
        lo
    } else if v > hi {
        hi
    } else {
        v
    }
}

/// A grid with both axes in range.
pub open spec fn clamped_grid(g: Grid) -> Grid {
    Grid { cols: within(g.cols, GRID_MIN, GRID_MAX), rows: within(g.rows, GRID_MIN, GRID_MAX) }
}

pub(crate) proof fn lemma_cells_in_range(g: Grid)
    requires
        GRID_MIN <= g.cols <= GRID_MAX,
        GRID_MIN <= g.rows <= GRID_MAX,
    ensures
        cell_count(g) == g.cols * g.rows,
        1 <= cell_count(g) <= 4096,
{
    assert(1 <= g.cols * g.rows <= 4096) by (nonlinear_arith)
        requires
            1 <= g.cols <= 64,
            1 <= g.rows <= 64,
    ;
}

/// Per-image flipbook settings, kept over navigation and reloads for the session.
#[derive(Debug, Clone, Copy, PartialEq, Eq, Structural)]
pub struct FlipbookState {
    pub grid: Grid,
    /// Frames played, from one to all cells.
    pub frame_count: u32,
    /// Frames per second, from [`FPS_MIN`] to [`FPS_MAX`].
    pub fps: Single,
    /// Crossfade consecutive frames.
    pub blend: bool,
    pub playing: bool,
    /// Playback position in frames, from zero to below the frame count.
    pub frame_pos: Single,
}

/// What every edit re-establishes: axes and frame count in range, the rate in range, the position
/// on the loop.
pub open spec fn is_settled(s: FlipbookState) -> bool {
    &&& GRID_MIN <= s.grid.cols <= GRID_MAX
    &&& GRID_MIN <= s.grid.rows <= GRID_MAX
    &&& 1 <= s.frame_count <= s.grid.cols * s.grid.rows
    &&& crate::single::in_range(s.fps, Single { bits: FPS_MIN }, Single { bits: FPS_MAX })
    &&& is_finite(s.frame_pos)
    &&& rank(s.frame_pos) >= 0
    &&& whole_part(s.frame_pos) < s.frame_count
}

/// A fresh state of a grid: all cells, the default rate, no blending, playing from the first frame.
pub open spec fn fresh_flipbook(grid: Grid) -> FlipbookState {
    FlipbookState {
        grid: clamped_grid(grid),
        frame_count: cell_count(clamped_grid(grid)) as u32,
        fps: Single { bits: FPS_DEFAULT },
        blend: false,
        playing: true,
        frame_pos: Single { bits: 0 },
    }
}

/// A fresh state of a grid with the configured rate, blending and start of playback.
pub open spec fn seeded_flipbook(grid: Grid, d: FlipbookCfg) -> FlipbookState {
    FlipbookState {
        fps: clamped_rate(d.fps),
        blend: d.blend,
        playing: d.autoplay,
        ..fresh_flipbook(grid)
    }
}

/// The rate after a clamp: a finite rate or an infinity goes to the nearer bound, what is no number
/// to the default.
pub open spec fn clamped_rate(fps: Single) -> Single {
    if is_finite(fps) {
        clamped(fps, fps, Single { bits: FPS_MIN }, Single { bits: FPS_MAX })
    } else if fps.bits == 0x7f80_0000 {
        Single { bits: FPS_MAX }
    } else if fps.bits == 0xff80_0000 {
        Single { bits: FPS_MIN }
    } else {
        Single { bits: FPS_DEFAULT }
    }
}

fn clamp_rate(fps: Single) -> (r: Single)
    ensures
        r == clamped_rate(fps),
{
    if fps.bits % 0x8000_0000 < 0x7f80_0000 {
        clamp_finite(fps, fps, Single { bits: FPS_MIN }, Single { bits: FPS_MAX })
    } else if fps.bits == 0x7f80_0000 {
        Single { bits: FPS_MAX }
    } else if fps.bits == 0xff80_0000 {
        Single { bits: FPS_MIN }
    } else {
        Single { bits: FPS_DEFAULT }
    }
}

impl FlipbookState {
    /// A fresh state of `grid`.
    pub fn new(grid: Grid) -> (s: Self)
        ensures
            s == fresh_flipbook(grid),
            is_settled(s),
    {
        let grid = Grid {
            cols: clamp_u32(grid.cols, GRID_MIN, GRID_MAX),
            rows: clamp_u32(grid.rows, GRID_MIN, GRID_MAX),
        };
        proof {
            lemma_cells_in_range(grid);
            crate::wrap::lemma_zero_is_whole();
        }
        FlipbookState {
            grid,
            frame_count: grid.cells(),
            fps: Single { bits: FPS_DEFAULT },
            blend: false,
            playing: true,
            frame_pos: Single { bits: 0 },
        }
    }

    /// A fresh state of `grid` as the settings have new flipbooks start.
    pub fn seeded(grid: Grid, d: FlipbookCfg) -> (s: Self)
        ensures
            s == seeded_flipbook(grid, d),
            is_settled(s),
    {
        let mut s = Self::new(grid);
        s.fps = clamp_rate(d.fps);
        s.blend = d.blend;
        s.playing = d.autoplay;
        s
    }

    /// Re-establish every invariant after an edit: axes in range, the frame count from one to all
    /// cells, the rate in range, the position wrapped onto the loop.
    pub fn clamp(&mut self)
        ensures
            final(self).grid == clamped_grid(old(self).grid),
            final(self).frame_count == within(
                old(self).frame_count,
                1,
                cell_count(clamped_grid(old(self).grid)) as u32,
            ),
            final(self).fps == clamped_rate(old(self).fps),
            final(self).blend == old(self).blend,
            final(self).playing == old(self).playing,
            is_wrapped(
                old(self).frame_pos,
                final(self).frame_count as nat,
                final(self).frame_pos,
            ),
            is_settled(*final(self)),
    {
        self.grid.cols = clamp_u32(self.grid.cols, GRID_MIN, GRID_MAX);
        self.grid.rows = clamp_u32(self.grid.rows, GRID_MIN, GRID_MAX);
        proof {
            lemma_cells_in_range(self.grid);
        }
        let cells = self.grid.cells();
        self.frame_count = clamp_u32(self.frame_count, 1, cells);
        self.fps = clamp_rate(self.fps);
        let count = as_single(self.frame_count);
        let ghost was = self.frame_pos;
        self.frame_pos = wrapped(self.frame_pos, count);
        proof {
            crate::wrap::law_wrapped_lies_on_loop(was, count as nat, self.frame_pos);
        }
    }
}

/// Whether the bits are no number at all.
pub open spec fn is_nan(x: Single) -> bool {
    x.bits % 0x8000_0000 > 0x7f80_0000
}

/// What the session keeps of an image: its flipbook state, which survives a disable, and the
/// detection hint.
#[derive(Debug, Clone, Copy, PartialEq, Eq, Structural)]
pub struct PerPath {
    pub enabled: bool,
    pub state: Option<FlipbookState>,
    pub hint: Option<Grid>,
    pub hint_dismissed: bool,
}

impl Default for PerPath {
    fn default() -> (r: Self)
        ensures
            r == (PerPath { enabled: false, state: None, hint: None, hint_dismissed: false }),
    {
        PerPath { enabled: false, state: None, hint: None, hint_dismissed: false }
    }
}

/// The frame shown at a position, and the one that it blends to.
pub open spec fn frame_pair(whole: nat, count: u32, blend: bool) -> (u32, u32) {
    let a = if whole < count {
        whole as u32
    } else {
        (count - 1) as u32
    };
    if blend {
        (a, ((a + 1) % count as int) as u32)
    } else {
        (a, a)
    }
}

/// `p` is the position on a loop of `count` frames.
pub open spec fn is_loop_position(pos: Single, count: u32, p: Single) -> bool {
    if is_finite(pos) {
        exists|c: nat| #[trigger] is_single_of(count as nat, c) && is_remainder(pos, c, p)
    } else {
        p == (Single { bits: 0 })
    }
}

/// Resolve a playback position into the two frames to sample and the blend factor. The second
/// frame follows the first around the loop; without blending, or with at most one frame, the
/// result is a hard cut.
pub fn resolve_frames(frame_pos: Single, frame_count: u32, blend: bool) -> (r: (u32, u32, Single))
    ensures
        frame_count <= 1 ==> r == (0u32, 0u32, Single { bits: 0 }),
        frame_count > 1 ==> exists|p: Single| #[trigger]
            is_loop_position(frame_pos, frame_count, p) && (r.0, r.1) == frame_pair(
                whole_part(p),
                frame_count,
                blend,
            ) && (if blend {
                is_fraction(p, r.2)
            } else {
                r.2 == (Single { bits: 0 })
            }),
        frame_count > 0 ==> r.0 < frame_count && r.1 < frame_count,
{
    if frame_count <= 1 {
        return (0, 0, Single { bits: 0 });
    }
    let p = if frame_pos.bits % 0x8000_0000 < 0x7f80_0000 {
        let c = as_single(frame_count);
        proof {
            crate::wrap::lemma_single_is_single(frame_count as nat, c as nat);
        }
        remainder(frame_pos, c)
    } else {
        Single { bits: 0 }
    };
    assert(is_loop_position(frame_pos, frame_count, p));
    proof {
        crate::wrap::lemma_remainder_is_finite(frame_pos, p, frame_count);
    }
    let (whole, t) = fraction(p);
    let a: u32 = if whole < frame_count as u64 {
        whole as u32
    } else {
        frame_count - 1
    };
    if !blend {
        return (a, a, Single { bits: 0 });
    }
    let b: u32 = if a == frame_count - 1 {
        0
    } else {
        a + 1
    };
    proof {
        if a == frame_count - 1 {
            vstd::arithmetic::div_mod::lemma_mod_self_0(frame_count as int);
        } else {
            vstd::arithmetic::div_mod::lemma_small_mod((a + 1) as nat, frame_count as nat);
        }
    }
    (a, b, t)
}

/// The column and row of a frame's cell; a frame past the end stays in the last row.
pub open spec fn frame_cell(frame: u32, grid: Grid) -> (u32, u32) {
    let cols = if grid.cols > 1 {
        grid.cols
    } else {
        1
    };
    let rows = if grid.rows > 1 {
        grid.rows
    } else {
        1
    };
    let row = frame / cols;
    (
        frame % cols,
        if row < rows {
            row
        } else {
            (rows - 1) as u32
        },
    )
}

/// The cell of a frame within the sheet, as column and row.
pub fn frame_cell_of(frame: u32, grid: Grid) -> (r: (u32, u32))
    ensures
        r == frame_cell(frame, grid),
{
    let cols = if grid.cols > 1 {
        grid.cols
    } else {
        1
    };
    let rows = if grid.rows > 1 {
        grid.rows
    } else {
        1
    };
    let row = frame / cols;
    (
        frame % cols,
        if row < rows {
            row
        } else {
            rows - 1
        },
    )
}

/// Within the grid, distinct frames lie in distinct cells: the layout is row by row.
pub proof fn law_frames_have_their_own_cells(a: u32, b: u32, grid: Grid)
    requires
        grid.cols >= 1,
        grid.rows >= 1,
        a < grid.cols * grid.rows,
        b < grid.cols * grid.rows,
        frame_cell(a, grid) == frame_cell(b, grid),
    ensures
        a == b,
{
    lemma_row_in_grid(a as int, grid.cols as int, grid.rows as int);
    lemma_row_in_grid(b as int, grid.cols as int, grid.rows as int);
    vstd::arithmetic::div_mod::lemma_fundamental_div_mod(a as int, grid.cols as int);
    vstd::arithmetic::div_mod::lemma_fundamental_div_mod(b as int, grid.cols as int);
}

proof fn lemma_row_in_grid(f: int, cols: int, rows: int)
    requires
        cols >= 1,
        0 <= f < cols * rows,
    ensures
        f / cols < rows,
{
    assert(f / cols < rows) by (nonlinear_arith)
        requires
            cols >= 1,
            0 <= f < cols * rows,
    ;
}

pub open spec fn at_least_one(n: u32) -> u32 {
    if n > 1 {
        n
    } else {
        1
    }
}

/// `d` is the size of a cell along an axis of `length` pixels with `cells` cells, rounded in single
/// precision and at least one.
pub open spec fn is_frame_dim(length: u32, cells: u32, d: u32) -> bool {
    exists|q: u32| #[trigger]
        is_rounded_ratio(length as nat, at_least_one(cells) as nat, q as nat) && d == at_least_one(q)
}

fn frame_dim(length: u32, cells: u32) -> (d: u32)
    ensures
        is_frame_dim(length, cells, d),
        d >= 1,
        length < 0x80_0000 && cells < 0x100_0000 ==> ({
            let c = at_least_one(cells) as int;
            let q = (2 * length + c) / (2 * c);
            d == if q > 1 {
                q
            } else {
                1
            }
        }),
{
    let c = if cells > 1 {
        cells
    } else {
        1
    };
    let q = rounded_ratio(length, c);
    assert(is_rounded_ratio(length as nat, at_least_one(cells) as nat, q as nat));
    if q > 1 {
        q
    } else {
        1
    }
}

/// Whole frame dimensions for pan, zoom and fit: the sheet's by the grid's, rounded, each at least
/// one pixel.
pub fn frame_dims(grid: Grid, sheet: (u32, u32)) -> (r: (u32, u32))
    ensures
        is_frame_dim(sheet.0, grid.cols, r.0),
        is_frame_dim(sheet.1, grid.rows, r.1),
        r.0 >= 1 && r.1 >= 1,
        sheet.0 < 0x80_0000 && grid.cols < 0x100_0000 ==> ({
            let c = at_least_one(grid.cols) as int;
            let q = (2 * sheet.0 + c) / (2 * c);
            r.0 == if q > 1 {
                q
            } else {
                1
            }
        }),
        sheet.1 < 0x80_0000 && grid.rows < 0x100_0000 ==> ({
            let c = at_least_one(grid.rows) as int;
            let q = (2 * sheet.1 + c) / (2 * c);
            r.1 == if q > 1 {
                q
            } else {
                1
            }
        }),
{
    (frame_dim(sheet.0, grid.cols), frame_dim(sheet.1, grid.rows))
}

/// Whether `c` separates the tokens of a file name.
pub open spec fn is_separator(c: char) -> bool {
    c == '_' || c == '-' || c == '.'
}

/// The place of the first `x` or `X` from `i` on, or the length.
pub open spec fn cross_at(tok: Seq<char>, i: int) -> int
    decreases tok.len() - i,
{
    if i >= tok.len() || tok[i] == 'x' || tok[i] == 'X' {
        i
    } else {
        cross_at(tok, i + 1)
    }
}

pub open spec fn is_number(s: Seq<char>) -> bool {
    s.len() > 0 && forall|k: int| 0 <= k < s.len() ==> is_digit(#[trigger] s[k])
}

/// The grid that a token such as `8x8` names: digits, one `x`, digits; both numbers in range, and
/// not `1x1`.
pub open spec fn grid_token(tok: Seq<char>) -> Option<Grid> {
    let x = cross_at(tok, 0);
    if x >= tok.len() {
        None
    } else {
        let (a, b) = (tok.take(x), tok.skip(x + 1));
        if is_number(a) && is_number(b) && GRID_MIN <= number(a) <= GRID_MAX && GRID_MIN <= number(b)
            <= GRID_MAX && !(number(a) == 1 && number(b) == 1) {
            Some(Grid { cols: number(a) as u32, rows: number(b) as u32 })
        } else {
            None
        }
    }
}

/// The place behind the last separator of `s`.
pub open spec fn last_token_start(s: Seq<char>) -> int
    decreases s.len(),
{
    if s.len() == 0 || is_separator(s.last()) {
        s.len() as int
    } else {
        last_token_start(s.drop_last())
    }
}

/// The grid named by the rightmost token of a file stem that names one.
pub open spec fn stem_grid(stem: Seq<char>) -> Option<Grid>
    decreases stem.len(),
    via stem_grid_shrinks
{
    let start = last_token_start(stem);
    let found = grid_token(stem.skip(start));
    if found is Some || start == 0 {
        found
    } else {
        stem_grid(stem.take(start - 1))
    }
}

#[via_fn]
proof fn stem_grid_shrinks(stem: Seq<char>) {
    lemma_last_token_start(stem);
}

proof fn lemma_last_token_start(s: Seq<char>)
    ensures
        0 <= last_token_start(s) <= s.len(),
        last_token_start(s) > 0 ==> is_separator(s[last_token_start(s) - 1]),
        forall|k: int| last_token_start(s) <= k < s.len() ==> !is_separator(#[trigger] s[k]),
    decreases s.len(),
{
    if s.len() > 0 && !is_separator(s.last()) {
        lemma_last_token_start(s.drop_last());
        assert forall|k: int| last_token_start(s) <= k < s.len() implies !is_separator(#[trigger] s[k]) by {
            if k < s.len() - 1 {
                assert(s.drop_last()[k] == s[k]);
            }
        }
    }
}

/// The number written by `s[i..j]`, every number past the grid's range given as the first one past
/// it; `None` where something else than digits is written.
fn grid_number(s: &Vec<char>, i: usize, j: usize) -> (r: Option<u32>)
    requires
        i <= j <= s.len(),
    ensures
        r is Some <==> is_number(s@.subrange(i as int, j as int)),
        r matches Some(n) ==> n == (if number(s@.subrange(i as int, j as int)) <= GRID_MAX {
            number(s@.subrange(i as int, j as int))
        } else {
            GRID_MAX as nat + 1
        }),
{
    let ghost t = s@.subrange(i as int, j as int);
    if i == j {
        return None;
    }
    let mut n: u32 = 0;
    let mut k = i;
    while k < j
        invariant
            i <= k <= j <= s.len(),
            t == s@.subrange(i as int, j as int),
            n == (if number(t.take(k - i)) <= GRID_MAX {
                number(t.take(k - i))
            } else {
                GRID_MAX as nat + 1
            }),
            forall|m: int| 0 <= m < k - i ==> is_digit(#[trigger] t[m]),
        decreases j - k,
    {
        let c = s[k];
        assert(t[k - i] == c);
        if !('0' <= c && c <= '9') {
            assert(!is_digit(t[k - i]));
            return None;
        }
        proof {
            lemma_number_take(t, k - i);
        }
        let next = n * 10 + (c as u32 - 48);
        n = if next <= GRID_MAX {
            next
        } else {
            GRID_MAX + 1
        };
        k += 1;
    }
    assert(t.take(t.len() as int) =~= t);
    Some(n)
}

/// The grid that the token `s[i..j]` names.
fn parse_token(s: &Vec<char>, i: usize, j: usize) -> (r: Option<Grid>)
    requires
        i <= j <= s.len(),
    ensures
        r == grid_token(s@.subrange(i as int, j as int)),
{
    let ghost t = s@.subrange(i as int, j as int);
    let mut x = i;
    while x < j && s[x] != 'x' && s[x] != 'X'
        invariant
            i <= x <= j <= s.len(),
            t == s@.subrange(i as int, j as int),
            cross_at(t, 0) == cross_at(t, x - i),
        decreases j - x,
    {
        assert(t[x - i] == s@[x as int]);
        x += 1;
    }
    assert(x < j ==> t[x - i] == s@[x as int]);
    if x == j {
        return None;
    }
    assert(t.take(x - i) =~= s@.subrange(i as int, x as int));
    assert(t.skip(x - i + 1) =~= s@.subrange(x + 1, j as int));
    let cols = match grid_number(s, i, x) {
        Some(n) => n,
        None => {
            return None;
        },
    };
    let rows = match grid_number(s, x + 1, j) {
        Some(n) => n,
        None => {
            return None;
        },
    };
    if cols < GRID_MIN || cols > GRID_MAX || rows < GRID_MIN || rows > GRID_MAX {
        return None;
    }
    if cols == 1 && rows == 1 {
        return None;
    }
    Some(Grid { cols, rows })
}

/// The grid that a token names.
pub fn parse_grid_token(tok: &str) -> (r: Option<Grid>)
    ensures
        r == grid_token(tok@),
{
    let s = chars_of(tok);
    assert(s@.subrange(0, s.len() as int) =~= tok@);
    parse_token(&s, 0, s.len())
}

/// The grid that a file stem names: its tokens are tried from the right.
pub fn stem_prior(stem: &str) -> (r: Option<Grid>)
    ensures
        r == stem_grid(stem@),
{
    let s = chars_of(stem);
    let mut end = s.len();
    assert(s@.take(end as int) =~= stem@);
    loop
        invariant
            end <= s.len(),
            stem_grid(s@.take(end as int)) == stem_grid(stem@),
        decreases end,
    {
        let ghost head = s@.take(end as int);
        let mut start = end;
        while start > 0 && s[start - 1] != '_' && s[start - 1] != '-' && s[start - 1] != '.'
            invariant
                start <= end <= s.len(),
                head == s@.take(end as int),
                last_token_start(head) == last_token_start(s@.take(start as int)),
            decreases start,
        {
            assert(s@.take(start as int).drop_last() =~= s@.take(start - 1));
            start -= 1;
        }
        assert(last_token_start(head) == start);
        assert(head.skip(start as int) =~= s@.subrange(start as int, end as int));
        if let Some(g) = parse_token(&s, start, end) {
            return Some(g);
        }
        if start == 0 {
            return None;
        }
        assert(head.take(start - 1) =~= s@.take(start - 1));
        end = start - 1;
    }
}

/// The grid that a path's file name gives, only a prior for detection.
pub fn filename_prior(path: &str) -> (r: Option<Grid>)
    ensures
        r == match path_file_stem(path@) {
            Some(stem) => stem_grid(stem),
            None => None,
        },
{
    match file_stem_of(path) {
        Some(stem) => stem_prior(stem.as_str()),
        None => None,
    }
}

/// A name that holds no separator and no `x` names no grid.
pub proof fn law_plain_name_is_no_grid(stem: Seq<char>)
    requires
        forall|k: int| 0 <= k < stem.len() ==> !is_separator(#[trigger] stem[k]) && stem[k] != 'x'
            && stem[k] != 'X',
    ensures
        stem_grid(stem) is None,
{
    lemma_last_token_start(stem);
    assert(last_token_start(stem) == 0);
    assert(stem.skip(0) =~= stem);
    lemma_no_cross(stem, 0);
}

proof fn lemma_no_cross(tok: Seq<char>, i: int)
    requires
        0 <= i <= tok.len(),
        forall|k: int| 0 <= k < tok.len() ==> #[trigger] tok[k] != 'x' && tok[k] != 'X',
    ensures
        cross_at(tok, i) == tok.len(),
    decreases tok.len() - i,
{
    if i < tok.len() {
        lemma_no_cross(tok, i + 1);
    }
}

/// Frames run row by row from the top left: counting the cells before a frame's cell gives the
/// frame back, and the cell lies on the sheet.
pub proof fn law_frames_run_row_by_row(frame: u32, grid: Grid)
    requires
        grid.cols >= 1,
        grid.rows >= 1,
        frame < grid.cols * grid.rows,
    ensures
        frame_cell(frame, grid).1 * grid.cols + frame_cell(frame, grid).0 == frame,
        frame_cell(frame, grid).0 < grid.cols,
        frame_cell(frame, grid).1 < grid.rows,
{
    let f = frame as int;
    let c = grid.cols as int;
    let r = grid.rows as int;
    vstd::arithmetic::div_mod::lemma_fundamental_div_mod(f, c);
    vstd::arithmetic::mul::lemma_mul_is_commutative(c, f / c);
    assert(f / c < r) by (nonlinear_arith)
        requires
            f < c * r,
            c >= 1,
            f >= 0,
    ;
    assert(0 <= f % c < c) by (nonlinear_arith)
        requires
            c >= 1,
    ;
}

/// Past the end of a row the next frame starts the row below; within a row it lies one cell to
/// the right.
pub proof fn law_next_frame_lies_next(frame: u32, grid: Grid)
    requires
        grid.cols >= 1,
        grid.rows >= 1,
        frame < u32::MAX,
        frame + 1 < grid.cols * grid.rows,
    ensures
        ({
            let (x, y) = frame_cell(frame, grid);
            let next = frame_cell((frame + 1) as u32, grid);
            if x + 1 < grid.cols {
                next == ((x + 1) as u32, y)
            } else {
                next == (0u32, (y + 1) as u32)
            }
        }),
{
    law_frames_run_row_by_row(frame, grid);
    law_frames_run_row_by_row((frame + 1) as u32, grid);
    let (x, y) = frame_cell(frame, grid);
    let (u, v) = frame_cell((frame + 1) as u32, grid);
    let c = grid.cols as int;
    assert(v * c + u == y * c + x + 1);
    assert((v == y && u == x + 1) || (v == y + 1 && u == 0 && x + 1 == c)) by (nonlinear_arith)
        requires
            v * c + u == y * c + x + 1,
            0 <= u < c,
            0 <= x < c,
    ;
}

/// Blending pairs a frame with the one after it, around the end with the first; without it a
/// frame stands alone. The position's whole part is the frame.
pub proof fn law_blending_pairs_neighbours(whole: nat, count: u32, blend: bool)
    requires
        count >= 1,
    ensures
        ({
            let (a, b) = frame_pair(whole, count, blend);
            &&& a < count && b < count
            &&& whole < count ==> a == whole
            &&& whole >= count ==> a == count - 1
            &&& !blend ==> b == a
            &&& blend && a + 1 < count ==> b == a + 1
            &&& blend && a + 1 == count ==> b == 0
        }),
{
    let (a, b) = frame_pair(whole, count, blend);
    let a = a as int;
    if a + 1 < count {
        vstd::arithmetic::div_mod::lemma_small_mod((a + 1) as nat, count as nat);
    } else {
        vstd::arithmetic::div_mod::lemma_mod_self_0(count as int);
    }
}

/// A grid is brought into range one side at a time: a side that fits stays, none becomes one, and
/// the largest is 64.
pub proof fn law_grid_sides_are_clamped_apart(g: Grid)
    ensures
        1 <= clamped_grid(g).cols <= 64,
        1 <= clamped_grid(g).rows <= 64,
        1 <= g.cols <= 64 ==> clamped_grid(g).cols == g.cols,
        1 <= g.rows <= 64 ==> clamped_grid(g).rows == g.rows,
        g.cols == 0 ==> clamped_grid(g).cols == 1,
        g.rows == 0 ==> clamped_grid(g).rows == 1,
        g.cols > 64 ==> clamped_grid(g).cols == 64,
        g.rows > 64 ==> clamped_grid(g).rows == 64,
        cell_count(clamped_grid(g)) == clamped_grid(g).cols * clamped_grid(g).rows,
        cell_count(Grid { cols: g.rows, rows: g.cols }) == cell_count(g),
{
    let c = clamped_grid(g);
    assert(c.cols * c.rows <= 64 * 64) by (nonlinear_arith)
        requires
            c.cols <= 64,
            c.rows <= 64,
    ;
    vstd::arithmetic::mul::lemma_mul_is_commutative(g.cols as int, g.rows as int);
}

/// A flipbook starts on its first frame and plays every cell of its sheet. Its speed, whether it
/// blends and whether it plays come from the settings, and from nothing else.
pub proof fn law_flipbooks_start_at_the_front(grid: Grid, d: FlipbookCfg)
    ensures
        ({
            let s = seeded_flipbook(grid, d);
            &&& s.frame_pos == (Single { bits: 0 })
            &&& s.frame_count == s.grid.cols * s.grid.rows
            &&& s.grid == clamped_grid(grid)
            &&& s.blend == d.blend
            &&& s.playing == d.autoplay
            &&& crate::single::in_range(d.fps, Single { bits: FPS_MIN }, Single { bits: FPS_MAX })
                ==> s.fps == d.fps
            &&& fresh_flipbook(grid).playing && !fresh_flipbook(grid).blend
            &&& fresh_flipbook(grid).fps.bits == FPS_DEFAULT
            &&& fresh_flipbook(grid).grid == s.grid
        }),
{
    law_grid_sides_are_clamped_apart(grid);
    let c = clamped_grid(grid);
    assert(c.cols * c.rows <= 64 * 64) by (nonlinear_arith)
        requires
            c.cols <= 64,
            c.rows <= 64,
    ;
}

/// A speed in range stays, one beyond an end takes that end, and what is no number takes the
/// usual speed.
pub proof fn law_speed_stays_in_range(fps: Single)
    ensures
        crate::single::in_range(
            clamped_rate(fps),
            Single { bits: FPS_MIN },
            Single { bits: FPS_MAX },
        ),
        crate::single::in_range(fps, Single { bits: FPS_MIN }, Single { bits: FPS_MAX })
            ==> clamped_rate(fps) == fps,
        is_nan(fps) <==> !is_finite(fps) && fps.bits % 0x8000_0000 != 0x7f80_0000,
        is_nan(fps) ==> clamped_rate(fps).bits == FPS_DEFAULT,
        !is_nan(fps) && rank(fps) >= rank(Single { bits: FPS_MAX }) ==> clamped_rate(fps).bits
            == FPS_MAX,
        !is_nan(fps) && rank(fps) <= rank(Single { bits: FPS_MIN }) ==> clamped_rate(fps).bits
            == FPS_MIN,
{
}

/// No frame is smaller than a pixel.
pub proof fn law_frames_have_a_pixel(length: u32, cells: u32, d: u32)
    ensures
        is_frame_dim(length, cells, d) ==> d >= 1,
        at_least_one(length) >= 1,
        length >= 1 ==> at_least_one(length) == length,
        length == 0 ==> at_least_one(length) == 1,
{
}

proof fn lemma_cross_is_first(tok: Seq<char>, i: int, at: int)
    requires
        0 <= i <= at < tok.len(),
        tok[at] == 'x' || tok[at] == 'X',
        forall|k: int| i <= k < at ==> #[trigger] tok[k] != 'x' && tok[k] != 'X',
    ensures
        cross_at(tok, i) == at,
    decreases at - i,
{
    if i < at {
        assert(tok[i] != 'x' && tok[i] != 'X');
        lemma_cross_is_first(tok, i + 1, at);
    }
}

/// Two numbers with a cross between them spell the columns and then the rows, as long as both
/// lie in range and the sheet has more than one cell.
pub proof fn law_token_spells_columns_then_rows(a: Seq<char>, cross: char, b: Seq<char>)
    requires
        is_number(a),
        is_number(b),
        cross == 'x' || cross == 'X',
    ensures
        grid_token(a + seq![cross] + b) is Some <==> 1 <= number(a) <= 64 && 1 <= number(b) <= 64
            && (number(a) > 1 || number(b) > 1),
        grid_token(a + seq![cross] + b) matches Some(g) ==> g.cols == number(a) && g.rows == number(
            b,
        ),
{
    let tok = a + seq![cross] + b;
    assert forall|k: int| 0 <= k < a.len() implies #[trigger] tok[k] != 'x' && tok[k] != 'X' by {
        assert(is_digit(a[k]));
    }
    lemma_cross_is_first(tok, 0, a.len() as int);
    assert(tok.take(a.len() as int) =~= a);
    assert(tok.skip(a.len() as int + 1) =~= b);
}

/// Whatever a name holds, a grid read from it fits and has more than one cell.
pub proof fn law_named_grids_fit(tok: Seq<char>, stem: Seq<char>)
    ensures
        grid_token(tok) matches Some(g) ==> 1 <= g.cols <= 64 && 1 <= g.rows <= 64 && cell_count(g)
            > 1 && clamped_grid(g) == g,
        stem_grid(stem) matches Some(g) ==> 1 <= g.cols <= 64 && 1 <= g.rows <= 64 && cell_count(g)
            > 1,
    decreases stem.len(),
{
    if grid_token(tok) is Some {
        let g = grid_token(tok)->0;
        assert(g.cols * g.rows > 1 && g.cols * g.rows <= 4096) by (nonlinear_arith)
            requires
                1 <= g.cols <= 64,
                1 <= g.rows <= 64,
                g.cols > 1 || g.rows > 1,
        ;
    }
    let start = last_token_start(stem);
    lemma_token_start(stem);
    if grid_token(stem.skip(start)) is Some || start == 0 {
        if grid_token(stem.skip(start)) is Some {
            let g = grid_token(stem.skip(start))->0;
            assert(g.cols * g.rows > 1 && g.cols * g.rows <= 4096) by (nonlinear_arith)
                requires
                    1 <= g.cols <= 64,
                    1 <= g.rows <= 64,
                    g.cols > 1 || g.rows > 1,
            ;
        }
    } else {
        law_named_grids_fit(tok, stem.take(start - 1));
    }
}

proof fn lemma_token_start(s: Seq<char>)
    ensures
        0 <= last_token_start(s) <= s.len(),
        last_token_start(s) > 0 ==> is_separator(s[last_token_start(s) - 1]),
    decreases s.len(),
{
    if s.len() > 0 && !is_separator(s.last()) {
        lemma_token_start(s.drop_last());
    }
}

proof fn lemma_last_token(head: Seq<char>, sep: char, tok: Seq<char>)
    requires
        is_separator(sep),
        forall|k: int| 0 <= k < tok.len() ==> !is_separator(#[trigger] tok[k]),
    ensures
        last_token_start(head + seq![sep] + tok) == head.len() + 1,
    decreases tok.len(),
{
    let s = head + seq![sep] + tok;
    if tok.len() == 0 {
        assert(s.last() == sep);
    } else {
        assert(s.last() == tok.last());
        assert(s.drop_last() =~= head + seq![sep] + tok.drop_last());
        lemma_last_token(head, sep, tok.drop_last());
    }
}

/// The last part of a name that spells a grid decides; a part that spells none is passed over.
pub proof fn law_last_grid_in_the_name_counts(head: Seq<char>, sep: char, tok: Seq<char>)
    requires
        sep == '_' || sep == '-' || sep == '.',
        forall|k: int| 0 <= k < tok.len() ==> !is_separator(#[trigger] tok[k]),
    ensures
        grid_token(tok) is Some ==> stem_grid(head + seq![sep] + tok) == grid_token(tok),
        grid_token(tok) is None ==> stem_grid(head + seq![sep] + tok) == stem_grid(head),
{
    lemma_last_token(head, sep, tok);
    let s = head + seq![sep] + tok;
    assert(s.skip(head.len() as int + 1) =~= tok);
    assert(s.take(head.len() as int) =~= head);
}

} // verus!
