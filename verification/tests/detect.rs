use fire::detect::{
    accept_grid, axis_period, bin_offsets, candidate_grid, cell_span, content_grid,
    descriptor_span, half_loop, lag_range, thumb_plan, Signal,
};
use fire::flipbook::Grid;
use fire::half::f16_bits_to_f32;
use fire::image::PixelFormat;

const PROFILE_VAR_EPS: f32 = 1e-6;
const YIN_THRESHOLD: f64 = 0.35;
const FLAT_VAR_EPS: f32 = 1e-4;
const MIN_NONFLAT_FRAC: f32 = 0.5;
const STRIP_ADJ_MIN: f32 = 0.45;
const FAR_IDENTICAL_CAP: f32 = 0.999;

struct Sheet {
    pixels: Vec<u8>,
    width: u32,
    height: u32,
    format: PixelFormat,
    alpha_opaque: bool,
}

fn detect(path: &str, sheet: &Sheet) -> Option<Grid> {
    let luma = grid_from_signal(sheet, Signal::Luma);
    let alpha = grid_from_signal(sheet, Signal::Alpha);
    fire::detect::detect(path, content_grid(luma, sheet.alpha_opaque, alpha))
}

fn grid_from_signal(sheet: &Sheet, signal: Signal) -> Option<Grid> {
    let plan = thumb_plan(sheet.width, sheet.height)?;
    let (tw, th) = (plan.width, plan.height);
    let mut thumb = vec![0.0f32; (tw * th) as usize];
    for oy in 0..th {
        for ox in 0..tw {
            let offsets = bin_offsets(sheet.width, sheet.height, sheet.format, ox, oy);
            let sum: f32 = offsets
                .iter()
                .map(|off| sample_at(&sheet.pixels, *off, sheet.format, signal))
                .sum();
            thumb[(oy * tw + ox) as usize] = sum / offsets.len() as f32;
        }
    }
    let cols = period(&column_activity(&thumb, tw as usize, th as usize), tw);
    let rows = period(&row_activity(&thumb, tw as usize, th as usize), th);
    let grid = candidate_grid(cols, rows)?;
    let (adjacent, far, nonflat) = cell_stats(&thumb, tw, th, grid);
    accept_grid(
        grid,
        nonflat < MIN_NONFLAT_FRAC,
        far >= FAR_IDENTICAL_CAP,
        adjacent >= STRIP_ADJ_MIN,
    )
}

fn period(profile: &[f32], thumb_dim: u32) -> Option<u32> {
    let l = profile.len();
    let (_, tau_max) = lag_range(l)?;
    let mean = profile.iter().sum::<f32>() / l as f32;
    let var = profile.iter().map(|v| (v - mean).powi(2)).sum::<f32>() / l as f32;
    let mut d = vec![0.0f64; tau_max + 1];
    for tau in 1..=tau_max {
        let n = l - tau;
        let mut s = 0.0f64;
        for i in 0..n {
            let diff = (profile[i] - profile[i + tau]) as f64;
            s += diff * diff;
        }
        d[tau] = s / n as f64;
    }
    let mut dp = vec![1.0f64; tau_max + 1];
    let mut running = 0.0f64;
    for tau in 1..=tau_max {
        running += d[tau];
        if running > 0.0 {
            dp[tau] = d[tau] * tau as f64 / running;
        }
    }
    let dips: Vec<bool> = (0..tau_max)
        .map(|t| t > 0 && dp[t] < YIN_THRESHOLD && dp[t] <= dp[t - 1] && dp[t] <= dp[t + 1])
        .collect();
    axis_period(l, var > PROFILE_VAR_EPS, &dips, thumb_dim)
}

fn column_activity(thumb: &[f32], tw: usize, th: usize) -> Vec<f32> {
    (0..tw - 1)
        .map(|x| {
            let mut s = 0.0f32;
            for y in 0..th {
                s += (thumb[y * tw + x + 1] - thumb[y * tw + x]).abs();
            }
            s / th as f32
        })
        .collect()
}

fn row_activity(thumb: &[f32], tw: usize, th: usize) -> Vec<f32> {
    (0..th - 1)
        .map(|y| {
            let mut s = 0.0f32;
            for x in 0..tw {
                s += (thumb[(y + 1) * tw + x] - thumb[y * tw + x]).abs();
            }
            s / tw as f32
        })
        .collect()
}

fn cell_stats(thumb: &[f32], tw: u32, th: u32, grid: Grid) -> (f32, f32, f32) {
    let n = grid.cells() as usize;
    let mut cells: Vec<Option<Vec<f32>>> = Vec::new();
    for r in 0..grid.rows {
        for c in 0..grid.cols {
            let xs = cell_span(c, tw, grid.cols);
            let ys = cell_span(r, th, grid.rows);
            cells.push(descriptor(thumb, tw as usize, xs, ys));
        }
    }
    let nonflat = cells.iter().filter(|d| d.is_some()).count() as f32 / n as f32;
    let alike = |apart: usize| -> Vec<f32> {
        (0..n - apart)
            .filter_map(|i| match (&cells[i], &cells[i + apart]) {
                (Some(a), Some(b)) => Some(a.iter().zip(b).map(|(x, y)| x * y).sum()),
                _ => None,
            })
            .collect()
    };
    (median(alike(1)), median(alike(half_loop(n))), nonflat)
}

fn descriptor(thumb: &[f32], tw: usize, xs: (u32, u32), ys: (u32, u32)) -> Option<Vec<f32>> {
    let mut d: Vec<f32> = Vec::new();
    for by in 0..8 {
        let (sy0, sy1) = descriptor_span(ys.0, ys.1, by);
        for bx in 0..8 {
            let (sx0, sx1) = descriptor_span(xs.0, xs.1, bx);
            let mut s = 0.0f32;
            for y in sy0..sy1 {
                for x in sx0..sx1 {
                    s += thumb[y as usize * tw + x as usize];
                }
            }
            d.push(s / ((sy1 - sy0) * (sx1 - sx0)) as f32);
        }
    }
    let mean: f32 = d.iter().sum::<f32>() / 64.0;
    for v in d.iter_mut() {
        *v -= mean;
    }
    let norm: f32 = d.iter().map(|v| v * v).sum::<f32>().sqrt();
    if norm * norm / 64.0 < FLAT_VAR_EPS {
        return None;
    }
    for v in d.iter_mut() {
        *v /= norm;
    }
    Some(d)
}

fn median(mut v: Vec<f32>) -> f32 {
    if v.is_empty() {
        return 0.0;
    }
    v.sort_by(|a, b| a.partial_cmp(b).unwrap());
    let n = v.len();
    if n % 2 == 1 {
        v[n / 2]
    } else {
        0.5 * (v[n / 2 - 1] + v[n / 2])
    }
}

fn sample_at(px: &[u8], off: usize, format: PixelFormat, signal: Signal) -> f32 {
    let lane = |i: usize| -> f32 {
        match format {
            PixelFormat::Rgba8Unorm => px[off + i] as f32 / 255.0,
            PixelFormat::Rgba16Unorm => {
                u16::from_ne_bytes([px[off + 2 * i], px[off + 2 * i + 1]]) as f32 / 65535.0
            }
            PixelFormat::Rgba16Float => f32::from_bits(
                f16_bits_to_f32(u16::from_ne_bytes([px[off + 2 * i], px[off + 2 * i + 1]]))
                    .to_bits(),
            ),
            PixelFormat::Rgba32Float => {
                let o = off + 4 * i;
                f32::from_ne_bytes([px[o], px[o + 1], px[o + 2], px[o + 3]])
            }
        }
    };
    match signal {
        Signal::Luma => 0.2126 * lane(0) + 0.7152 * lane(1) + 0.0722 * lane(2),
        Signal::Alpha => lane(3),
    }
}

/// Build an Rgba8 `Sheet` from a luma closure `f(x, y) -> 0..=255` (gray, opaque).
fn img_from<F: Fn(u32, u32) -> u8>(w: u32, h: u32, f: F) -> Sheet {
    let mut px = Vec::with_capacity((w * h * 4) as usize);
    for y in 0..h {
        for x in 0..w {
            let v = f(x, y);
            px.extend_from_slice(&[v, v, v, 255]);
        }
    }
    Sheet {
        pixels: px,
        width: w,
        height: h,
        format: PixelFormat::Rgba8Unorm,
        alpha_opaque: true,
    }
}

/// A localized bright blob that drifts a little each frame: consecutive cells overlap (high
/// similarity), but the blob occupies only part of a cell — so a finer over-split (16×16 on
/// an 8×8 sheet) leaves mostly-empty cells and is rejected by the non-flat-fraction guard.
fn moving_dot_sheet(cols: u32, rows: u32, cell: u32) -> Sheet {
    let (w, h) = (cols * cell, rows * cell);
    img_from(w, h, |x, y| {
        let c = x / cell;
        let r = y / cell;
        let frame = (r * cols + c) as f32;
        let lx = (x % cell) as f32;
        let ly = (y % cell) as f32;
        // Blob oscillates within the cell: enough per-frame motion that consecutive cells
        // are similar-but-distinct (NCC in-band), bounded so the blob stays localized.
        let cx = cell as f32 * (0.5 + 0.2 * (frame * 0.9).sin());
        let cy = cell as f32 * (0.5 + 0.2 * (frame * 1.3).cos());
        let d2 = (lx - cx).powi(2) + (ly - cy).powi(2);
        let sig = cell as f32 * 0.15; // small → localized
        let v = (-d2 / (2.0 * sig * sig)).exp();
        (v * 255.0) as u8
    })
}

/// A `cols×rows` grid of drifting blobs over an arbitrary `w×h` canvas — cell size `w/cols`,
/// `h/rows` may be fractional (a 5×5 on 512² has 102.4px cells). Exercises the period detector
/// on non-power-of-two grids, a common real-world layout.
fn moving_dot_sheet_frac(cols: u32, rows: u32, w: u32, h: u32) -> Sheet {
    let cw = w as f32 / cols as f32;
    let ch = h as f32 / rows as f32;
    img_from(w, h, |x, y| {
        let c = ((x as f32 / cw).floor() as u32).min(cols - 1);
        let r = ((y as f32 / ch).floor() as u32).min(rows - 1);
        let frame = (r * cols + c) as f32;
        let lx = x as f32 - c as f32 * cw;
        let ly = y as f32 - r as f32 * ch;
        let bx = cw * (0.5 + 0.2 * (frame * 0.9).sin());
        let by = ch * (0.5 + 0.2 * (frame * 1.3).cos());
        let d2 = (lx - bx).powi(2) + (ly - by).powi(2);
        let sig = cw.min(ch) * 0.15;
        let v = (-d2 / (2.0 * sig * sig)).exp();
        (v * 255.0) as u8
    })
}

#[test]
fn detect_moving_dot_no_prior() {
    let img = moving_dot_sheet(8, 8, 16); // 128×128, full-bleed
    assert_eq!(
        detect("untitled.png", &img),
        Some(Grid::new(8, 8))
    );
}

#[test]
fn detect_non_divisible_grid_no_prior() {
    // 5×5 on a 512² canvas → 102.4px cells (512 not divisible by 5). The period detector must
    // find it from content with no filename token — the real-world VFX case (a 5×5 sheet on a
    // power-of-two atlas) that a divisor-only scan structurally cannot detect.
    let img = moving_dot_sheet_frac(5, 5, 512, 512);
    assert_eq!(
        detect("untitled.png", &img),
        Some(Grid::new(5, 5))
    );
}

#[test]
fn detect_single_object_no_prior_none() {
    // One centred blob filling the frame (a lone sprite, no grid) → no repeating period → None.
    let img = img_from(256, 256, |x, y| {
        let dx = x as f32 - 128.0;
        let dy = y as f32 - 128.0;
        let v = (-(dx * dx + dy * dy) / (2.0 * 70.0 * 70.0)).exp();
        (v * 255.0) as u8
    });
    assert_eq!(detect("spark.png", &img), None);
}

#[test]
fn detect_content_beats_wrong_token() {
    // Content is the determining factor: an 8×8 sheet with a filename lying about 4×4 detects
    // as 8×8 from the pixels — the token never overrides content.
    let img = moving_dot_sheet(8, 8, 16);
    assert_eq!(
        detect("boom_4x4.png", &img),
        Some(Grid::new(8, 8))
    );
}

#[test]
fn detect_horizontal_strip_no_prior() {
    // A 4×1 strip: four full-height bars, one per cell, centred (clean column period) and
    // widening frame to frame (similar neighbours, distinct ends). No vertical structure, so
    // the row axis has no period → a strip. Content must detect 4×1 with no filename token.
    let (cols, cw, h) = (4u32, 56u32, 168u32);
    let img = img_from(cols * cw, h, |x, _y| {
        let c = (x / cw) as f32;
        let lx = (x % cw) as f32 - cw as f32 * 0.5;
        let sig = cw as f32 * (0.12 + 0.04 * c); // width grows per frame
        ((-(lx * lx) / (2.0 * sig * sig)).exp() * 255.0) as u8
    });
    assert_eq!(
        detect("untitled.png", &img),
        Some(Grid::new(4, 1))
    );
}

#[test]
fn detect_dissimilar_bands_not_strip() {
    // Three horizontally-uniform bands (up-ramp, down-ramp, flat-ish) split by dark gutters:
    // the row axis reads a period-3, but the bands don't resemble each other (a segmented
    // object, like a bat wing), so the strip adjacency guard rejects it.
    let (w, h) = (128u32, 96u32); // 3 bands of 32
    let img = img_from(w, h, |_x, y| {
        let ly = y % 32;
        if ly < 3 {
            return 0; // dark gutter → row period 3, columns stay uniform (no col period)
        }
        match y / 32 {
            0 => (ly * 7) as u8,            // ramp up
            1 => ((32 - ly) * 7) as u8,     // ramp down — anti-correlated with band 0
            _ => (60 + (ly % 5) * 8) as u8, // different again
        }
    });
    assert_eq!(detect("wing.png", &img), None);
}

#[test]
fn detect_flat_is_none() {
    let img = img_from(128, 128, |_, _| 128); // solid grey
    assert_eq!(detect("untitled.png", &img), None);
}

#[test]
fn detect_fine_tile_is_none() {
    // A fine repeating checkerboard is a tiled texture, not an animation.
    let img = img_from(128, 128, |x, y| {
        if ((x / 4) + (y / 4)) % 2 == 0 {
            30
        } else {
            220
        }
    });
    assert_eq!(detect("untitled.png", &img), None);
}

#[test]
fn detect_padded_sheet_with_prior() {
    // 4×4 blob sheet with a dark padding gap between cells; prior agrees.
    let cell = 20u32;
    let (cols, rows) = (4u32, 4u32);
    let img = img_from(cols * cell, rows * cell, |x, y| {
        let lx = x % cell;
        let ly = y % cell;
        // 2px dark gap around each cell → clear boundary anomaly.
        if lx < 2 || ly < 2 || lx >= cell - 2 || ly >= cell - 2 {
            return 0;
        }
        let frame = (y / cell) * cols + (x / cell);
        let fx = (lx as f32) / cell as f32;
        let fy = (ly as f32) / cell as f32;
        ((((fx + fy) * 3.0 + frame as f32 * 0.5).sin() * 0.5 + 0.5) * 255.0) as u8
    });
    assert_eq!(
        detect("pad_4x4.png", &img),
        Some(Grid::new(4, 4))
    );
}

#[test]
fn detect_weak_content_prior_fallback() {
    // A smooth gradient (no grid structure) with an explicit token → fall back to the token.
    let img = img_from(128, 64, |x, _| (x * 255 / 128) as u8);
    assert_eq!(
        detect("grad_4x2.png", &img),
        Some(Grid::new(4, 2))
    );
}

#[test]
fn detect_weak_content_no_token_none() {
    let img = img_from(128, 64, |x, _| (x * 255 / 128) as u8);
    assert_eq!(detect("grad.png", &img), None);
}

#[test]
fn detect_alpha_only_sheet() {
    // A sheet whose structure lives ONLY in alpha — RGB is solid white, the moving blob is the
    // alpha mask (a common VFX export, e.g. steam). The luma pass sees a flat field; the alpha
    // fallback must recover the 8×8 grid. No filename token.
    let (cols, rows, cell) = (8u32, 8u32, 16u32);
    let (w, h) = (cols * cell, rows * cell);
    let mut px = Vec::with_capacity((w * h * 4) as usize);
    for y in 0..h {
        for x in 0..w {
            let c = x / cell;
            let r = y / cell;
            let frame = (r * cols + c) as f32;
            let lx = (x % cell) as f32;
            let ly = (y % cell) as f32;
            let bx = cell as f32 * (0.5 + 0.2 * (frame * 0.9).sin());
            let by = cell as f32 * (0.5 + 0.2 * (frame * 1.3).cos());
            let d2 = (lx - bx).powi(2) + (ly - by).powi(2);
            let sig = cell as f32 * 0.15;
            let a = ((-d2 / (2.0 * sig * sig)).exp() * 255.0) as u8;
            px.extend_from_slice(&[255, 255, 255, a]); // flat white RGB, structure in alpha
        }
    }
    let img = Sheet {
        pixels: px,
        width: w,
        height: h,
        format: PixelFormat::Rgba8Unorm,
        alpha_opaque: false,
    };
    assert_eq!(
        detect("steam.png", &img),
        Some(Grid::new(8, 8))
    );
}

#[test]
fn thumbnails_stay_small_and_bins_lie_inside() {
    assert!(thumb_plan(1, 100).is_none());
    let p = thumb_plan(1300, 700).unwrap();
    assert_eq!((p.bin, p.step, p.width, p.height), (3, 1, 433, 233));
    let p = thumb_plan(2048, 2048).unwrap();
    assert_eq!((p.bin, p.step, p.width, p.height), (4, 2, 512, 512));
    let offsets = bin_offsets(2048, 2048, PixelFormat::Rgba8Unorm, 511, 511);
    assert_eq!(offsets.len(), 4);
    assert!(offsets.iter().all(|o| o + 4 <= 2048 * 2048 * 4));
    assert_eq!(offsets[0], (2044 * 2048 + 2044) * 4);
}

#[test]
fn cells_tile_the_axis() {
    let mut at = 0;
    for i in 0..5 {
        let (from, to) = cell_span(i, 512, 5);
        assert_eq!(from, at);
        at = to;
    }
    assert_eq!(at, 512);
    assert_eq!(cell_span(1, 512, 5), (102, 205));
}

#[test]
fn an_axis_without_a_dip_has_no_period() {
    assert_eq!(lag_range(15), None);
    assert_eq!(lag_range(127), Some((6, 63)));
    let mut dips = vec![false; 64];
    assert_eq!(axis_period(127, true, &dips, 128), None);
    dips[16] = true;
    dips[32] = true;
    assert_eq!(axis_period(127, true, &dips, 128), Some(8));
    assert_eq!(axis_period(127, false, &dips, 128), None);
}

#[test]
fn short_strips_are_no_animation() {
    assert_eq!(candidate_grid(Some(2), None), None);
    assert_eq!(candidate_grid(None, Some(3)), Some(Grid::new(1, 3)));
    assert_eq!(candidate_grid(Some(2), Some(2)), Some(Grid::new(2, 2)));
    assert_eq!(candidate_grid(None, None), None);
    let strip = Grid::new(4, 1);
    assert_eq!(accept_grid(strip, false, false, true), Some(strip));
    assert_eq!(accept_grid(strip, false, false, false), None);
    assert_eq!(accept_grid(Grid::new(2, 2), false, false, false), Some(Grid::new(2, 2)));
    assert_eq!(accept_grid(strip, true, false, true), None);
    assert_eq!(accept_grid(strip, false, true, true), None);
}
