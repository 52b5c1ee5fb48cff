//! The software renderer's integer parts: how a frame is split into bands of rows, how a pixel is
//! packed, and which pixels need no shading.
use vstd::prelude::*;

use crate::view::Channel;

verus! {

/// A pixel as `0x00RRGGBB`.
pub open spec fn packed(r: u8, g: u8, b: u8) -> u32 {
    (65536 * r + 256 * g + b) as u32
}

/// A pixel as `0x00RRGGBB`.
pub fn pack(r: u8, g: u8, b: u8) -> (p: u32)
    ensures
        p == packed(r, g, b),
        p == 65536 * r + 256 * g + b,
{
    65536 * r as u32 + 256 * g as u32 + b as u32
}

/// The pixel of a source texel that is shown as it is: an opaque colour, or one channel as grey.
/// None where the texel is to be composited.
pub fn passthrough(channel: Channel, r: u8, g: u8, b: u8, a: u8) -> (p: Option<u32>)
    ensures
        p == match channel {
            Channel::R => Some(packed(r, r, r)),
            Channel::G => Some(packed(g, g, g)),
            Channel::B => Some(packed(b, b, b)),
            Channel::A => Some(packed(a, a, a)),
            Channel::Rgb | Channel::Rgba => if a == 255 {
                Some(packed(r, g, b))
            } else {
                None
            },
        },
        p == passed(channel, r, g, b, a),
{
    match channel {
        Channel::R => Some(pack(r, r, r)),
        Channel::G => Some(pack(g, g, g)),
        Channel::B => Some(pack(b, b, b)),
        Channel::A => Some(pack(a, a, a)),
        Channel::Rgb | Channel::Rgba => if a == 255 {
            Some(pack(r, g, b))
        } else {
            None
        },
    }
}

/// The rows of a band: as many as let `threads` bands cover the frame.
pub open spec fn band_rows(height: int, threads: int) -> int {
    let n = if threads > height {
        height
    } else {
        threads
    };
    (height + n - 1) / n
}

/// The bands of a frame, each as its first row and its row count. Nothing for an empty frame.
pub fn bands(width: u32, height: u32, threads: usize) -> (r: Vec<(u32, u32)>)
    requires
        threads >= 1,
    ensures
        (width == 0 || height == 0) ==> r.len() == 0,
        width > 0 && height > 0 ==> {
            let rows = band_rows(height as int, threads as int);
            &&& r.len() == (height + rows - 1) / rows
            &&& forall|i: int|
                0 <= i < r.len() ==> {
                    &&& (#[trigger] r@[i]).0 == i * rows
                    &&& r@[i].1 == if height - i * rows < rows {
                        height - i * rows
                    } else {
                        rows
                    }
                    &&& r@[i].1 > 0
                }
        },
{
    let mut r: Vec<(u32, u32)> = Vec::new();
    if width == 0 || height == 0 {
        return r;
    }
    let n: u32 = if threads > height as usize {
        height
    } else {
        threads as u32
    };
    let rows: u32 = (height - 1) / n + 1;
    proof {
        let (h, m) = (height as int, n as int);
        assert((h + m - 1) / m == (h - 1) / m + 1) by (nonlinear_arith)
            requires
                h >= 1,
                m >= 1,
        ;
        assert((h - 1) / m <= h - 1) by (nonlinear_arith)
            requires
                h >= 1,
                m >= 1,
        ;
    }
    let ghost count = (height + rows - 1) / rows as int;
    let mut y: u32 = 0;
    let ghost mut k: int = 0;
    proof {
        assert(0 * rows == 0) by (nonlinear_arith);
    }
    while y < height
        invariant
            1 <= rows <= height,
            rows == band_rows(height as int, threads as int),
            r.len() == k,
            k >= 0,
            y < height ==> y == k * rows,
            y >= height ==> y == height && (k - 1) * rows < height <= k * rows && k >= 1,
            forall|i: int|
                0 <= i < r.len() ==> {
                    &&& (#[trigger] r@[i]).0 == i * rows
                    &&& r@[i].1 == if height - i * rows < rows {
                        height - i * rows
                    } else {
                        rows as int
                    }
                    &&& r@[i].1 > 0
                },
        decreases height - y,
    {
        let left = height - y;
        let take: u32 = if left < rows {
            left
        } else {
            rows
        };
        r.push((y, take));
        proof {
            assert((k + 1) * rows == k * rows + rows) by (nonlinear_arith);
            k = k + 1;
            assert((k - 1) * rows == y);
        }
        y += take;
    }
    proof {
        assert((height + rows - 1) / rows as int == k) by (nonlinear_arith)
            requires
                (k - 1) * rows < height <= k * rows,
                rows >= 1,
        ;
    }
    r
}

/// The bands of a frame follow one another without a gap, from its first row to its last.
pub proof fn law_bands_cover_the_frame(height: int, rows: int, i: int)
    requires
        height > 0,
        rows > 0,
        0 <= i,
        i * rows < height,
    ensures
        i * rows + (if height - i * rows < rows {
            height - i * rows
        } else {
            rows
        }) == if (i + 1) * rows < height {
            (i + 1) * rows
        } else {
            height
        },
{
    assert((i + 1) * rows == i * rows + rows) by (nonlinear_arith);
}

/// A packed pixel holds blue in its lowest byte, then green, then red.
pub proof fn law_packed_pixel_bytes(r: u8, g: u8, b: u8)
    ensures
        packed(r, g, b) % 256 == b,
        packed(r, g, b) / 256 % 256 == g,
        packed(r, g, b) / 65536 == r,
{
}

/// The rows are shared out evenly: so many bands of so many rows hold them all, and with one row
/// less in each they would not; there is never a band without a row.
pub proof fn law_rows_are_shared_out(height: int, threads: int)
    requires
        height > 0,
        threads > 0,
    ensures
        ({
            let rows = band_rows(height, threads);
            let n = if threads > height {
                height
            } else {
                threads
            };
            &&& rows >= 1
            &&& rows * n >= height
            &&& (rows - 1) * n < height
            &&& threads >= height ==> rows == 1
            &&& threads == 1 ==> rows == height
        }),
{
    let n = if threads > height {
        height
    } else {
        threads
    };
    let rows = band_rows(height, threads);
    let x = height + n - 1;
    vstd::arithmetic::div_mod::lemma_fundamental_div_mod(x, n);
    assert(0 <= x % n < n) by (nonlinear_arith)
        requires
            n > 0,
    ;
    vstd::arithmetic::mul::lemma_mul_is_commutative(n, rows);
    vstd::arithmetic::mul::lemma_mul_is_distributive_sub_other_way(n, rows, 1);
    assert(rows >= 1) by (nonlinear_arith)
        requires
            rows * n >= height,
            height > 0,
            n > 0,
    ;
    if threads >= height {
        assert(rows == 1) by (nonlinear_arith)
            requires
                (rows - 1) * n < n,
                rows >= 1,
                n > 0,
        ;
    }
}

/// The pixel that a channel shows as it is stored, where it does.
pub open spec fn passed(channel: Channel, r: u8, g: u8, b: u8, a: u8) -> Option<u32> {
    let single = match channel {
        Channel::R => Some(r),
        Channel::G => Some(g),
        Channel::B => Some(b),
        Channel::A => Some(a),
        _ => None,
    };
    match single {
        Some(v) => Some(packed(v, v, v)),
        None => if a < 255 {
            None
        } else {
            Some(packed(r, g, b))
        },
    }
}

/// A single channel is shown as grey of its own strength, whatever the others hold. The colours
/// pass through only where the pixel is opaque, and then each in its place.
pub proof fn law_single_channels_are_grey(channel: Channel, r: u8, g: u8, b: u8, a: u8)
    ensures
        ({
            let p = passed(channel, r, g, b, a);
            &&& p is None <==> (channel == Channel::Rgb || channel == Channel::Rgba) && a != 255
            &&& channel != Channel::Rgb && channel != Channel::Rgba ==> p->0 % 256 == p->0 / 256
                % 256 && p->0 % 256 == p->0 / 65536
            &&& channel == Channel::R ==> p->0 % 256 == r
            &&& channel == Channel::G ==> p->0 % 256 == g
            &&& channel == Channel::B ==> p->0 % 256 == b
            &&& channel == Channel::A ==> p->0 % 256 == a
            &&& p is Some && (channel == Channel::Rgb || channel == Channel::Rgba) ==> p->0 / 65536
                == r && p->0 / 256 % 256 == g && p->0 % 256 == b
        }),
{
    match channel {
        Channel::R => law_packed_pixel_bytes(r, r, r),
        Channel::G => law_packed_pixel_bytes(g, g, g),
        Channel::B => law_packed_pixel_bytes(b, b, b),
        Channel::A => law_packed_pixel_bytes(a, a, a),
        _ => law_packed_pixel_bytes(r, g, b),
    }
}

} // verus!
