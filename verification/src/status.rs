//! The texts around the image: window titles, the status bar, file sizes and image metadata.
use vstd::arithmetic::power2::pow2;
use vstd::prelude::*;

use crate::image::ImageInfo;
use crate::mips::level_dims;
use crate::paths::file_name_of;
use crate::text::string_of;

verus! {

/// The decimal digits of a number, without leading zeros.
pub open spec fn digits(n: nat) -> Seq<char>
    decreases n,
{
    if n < 10 {
        seq![digit(n)]
    } else {
        digits(n / 10).push(digit(n % 10))
    }
}

pub open spec fn digit(d: nat) -> char {
    (d + '0' as nat) as char
}

fn digit_char(d: u64) -> (c: char)
    requires
        d < 10,
    ensures
        c == digit(d as nat),
{
    (d as u8 + '0' as u8) as char
}

/// A number in decimal.
pub fn decimal(n: u64) -> (s: String)
    ensures
        s@ == digits(n as nat),
{
    let mut reversed: Vec<char> = Vec::new();
    let mut left = n;
    while left >= 10
        invariant
            digits(n as nat) =~= digits(left as nat) + reversed@.reverse(),
        decreases left,
    {
        let ghost was = reversed@;
        reversed.push(digit_char(left % 10));
        assert(reversed@.reverse() =~= seq![digit((left % 10) as nat)] + was.reverse());
        assert(digits(left as nat) =~= digits((left / 10) as nat).push(digit((left % 10) as nat)));
        left = left / 10;
    }
    let ghost was = reversed@;
    reversed.push(digit_char(left));
    assert(reversed@.reverse() =~= seq![digit(left as nat)] + was.reverse());
    assert(digits(n as nat) =~= reversed@.reverse());
    let mut out: Vec<char> = Vec::new();
    let mut i = reversed.len();
    while i > 0
        invariant
            i <= reversed.len(),
            out@ =~= reversed@.reverse().take(reversed.len() - i),
        decreases i,
    {
        i -= 1;
        let ghost before = out@;
        out.push(reversed[i]);
        assert(out@ =~= reversed@.reverse().take(reversed.len() - i));
    }
    assert(out@ =~= reversed@.reverse());
    string_of(out.as_slice())
}

/// `n / d` to the nearest integer, to the even one where two are as near.
pub open spec fn half_even(n: nat, d: nat) -> nat {
    let q = n / d;
    let r = n % d;
    if 2 * r < d || (2 * r == d && q % 2 == 0) {
        q
    } else {
        q + 1
    }
}

fn rounded_quotient(n: u128, d: u128) -> (q: u128)
    requires
        0 < d < 0x1_0000_0000_0000,
        n < 0x1_0000_0000_0000_0000_0000,
    ensures
        q == half_even(n as nat, d as nat),
        q <= n / d + 1,
{
    let q = n / d;
    let r = n % d;
    assert(q <= n) by (nonlinear_arith)
        requires
            q == n / d,
            d > 0,
    ;
    if 2 * r < d || (2 * r == d && q % 2 == 0) {
        q
    } else {
        q + 1
    }
}

/// `d` is the byte count `b` with 53 significant bits: itself, or the nearest number whose last
/// bits are zero.
pub open spec fn is_double_of(b: nat, d: nat) -> bool {
    if b < 0x20_0000_0000_0000 {
        d == b
    } else {
        exists|k: nat| #[trigger]
            pow2(k) * 0x10_0000_0000_0000 <= b < pow2(k) * 0x20_0000_0000_0000 && d == half_even(
                b,
                pow2(k),
            ) * pow2(k)
    }
}

fn as_double(b: u64) -> (d: u128)
    ensures
        is_double_of(b as nat, d as nat),
        d <= 0x1_0000_0000_0000_0000,
{
    if b < 0x20_0000_0000_0000 {
        return b as u128;
    }
    let mut unit: u64 = 1;
    let mut bits: u32 = 0;
    proof {
        vstd::arithmetic::power2::lemma2_to64();
    }
    while bits < 11 && b / unit >= 0x20_0000_0000_0000
        invariant
            bits <= 11,
            unit == pow2(bits as nat),
            1 <= unit <= 2048,
            bits == 11 ==> unit == 2048,
            b / unit >= 0x10_0000_0000_0000,
        decreases 11 - bits,
    {
        proof {
            vstd::arithmetic::power2::lemma2_to64();
            crate::ratio::lemma_pow2_next(bits as nat);
            if bits + 1 < 11 {
                vstd::arithmetic::power2::lemma_pow2_strictly_increases((bits + 1) as nat, 11);
            }
            vstd::arithmetic::div_mod::lemma_div_denominator(b as int, unit as int, 2);
            assert(unit * 2 == 2 * unit);
        }
        unit = 2 * unit;
        bits += 1;
    }
    let ghost k = bits as nat;
    proof {
        vstd::arithmetic::div_mod::lemma_fundamental_div_mod(b as int, unit as int);
        let q = (b / unit) as int;
        assert(q < 0x20_0000_0000_0000) by (nonlinear_arith)
            requires
                q < 0x20_0000_0000_0000 || (unit == 2048 && b == unit * q + b % unit && b % unit
                    >= 0 && b <= u64::MAX),
        ;
        assert(unit * 0x10_0000_0000_0000 <= b < unit * 0x20_0000_0000_0000) by (nonlinear_arith)
            requires
                b == unit * q + b % unit,
                0 <= b % unit < unit,
                0x10_0000_0000_0000 <= q < 0x20_0000_0000_0000,
        ;
        assert(b as nat / pow2(k) == b / unit);
    }
    let q = rounded_quotient(b as u128, unit as u128);
    proof {
        assert(q * unit <= 0x1_0000_0000_0000_0000) by (nonlinear_arith)
            requires
                q <= 0x20_0000_0000_0000,
                1 <= unit <= 2048,
        ;
    }
    q * unit as u128
}

/// The text of a count of units with one decimal.
pub open spec fn tenths_text(t: nat) -> Seq<char> {
    digits(t / 10).push('.').push(digit(t % 10))
}

/// The text of a byte count that single units do not suit: the count in double precision, over the
/// unit.
pub open spec fn scaled_text(d: nat, bytes: nat) -> Seq<char> {
    if bytes >= 0x4000_0000 {
        tenths_text(half_even(10 * d, 0x4000_0000)) + " GB"@
    } else if bytes >= 0x10_0000 {
        tenths_text(half_even(10 * d, 0x10_0000)) + " MB"@
    } else {
        digits(half_even(d, 1024)) + " KB"@
    }
}

/// `text` is a byte count in the largest unit that it reaches.
pub open spec fn is_size_text(bytes: nat, text: Seq<char>) -> bool {
    if bytes >= 1024 {
        exists|d: nat| #[trigger] is_double_of(bytes, d) && text == scaled_text(d, bytes)
    } else {
        text == digits(bytes) + " B"@
    }
}

fn tenths(t: u128) -> (s: String)
    requires
        t < 0x1_0000_0000_0000_0000,
    ensures
        s@ == tenths_text(t as nat),
{
    let mut s = decimal((t / 10) as u64);
    s.push('.');
    s.push(digit_char((t % 10) as u64));
    s
}

/// A byte count as a compact text in B, KB, MB or GB, of 1024 each.
pub fn human_size(bytes: u64) -> (s: String)
    ensures
        is_size_text(bytes as nat, s@),
{
    if bytes < 1024 {
        let mut s = decimal(bytes);
        s.append(" B");
        return s;
    }
    let d = as_double(bytes);
    let s = if bytes >= 0x4000_0000 {
        let mut s = tenths(rounded_quotient(10 * d, 0x4000_0000));
        s.append(" GB");
        s
    } else if bytes >= 0x10_0000 {
        let mut s = tenths(rounded_quotient(10 * d, 0x10_0000));
        s.append(" MB");
        s
    } else {
        let mut s = decimal(rounded_quotient(d, 1024) as u64);
        s.append(" KB");
        s
    };
    assert(is_double_of(bytes as nat, d as nat));
    assert(s@ =~= scaled_text(d as nat, bytes as nat));
    s
}

/// The name of a path's last component, or a stand-in.
pub open spec fn shown_name(path: Seq<char>) -> Seq<char> {
    match crate::paths::path_file_name(path) {
        Some(name) => name,
        None => "image"@,
    }
}

/// The name that a path is shown under.
pub fn file_name(path: &str) -> (s: String)
    ensures
        s@ == shown_name(path@),
{
    match file_name_of(path) {
        Some(name) => name,
        None => {
            let mut s = String::new();
            s.append("image");
            assert(s@ =~= "image"@);
            s
        },
    }
}

/// What is said of the channels of an image.
pub open spec fn channel_text(channels: u8) -> Seq<char> {
    if channels == 1 {
        "Gray"@
    } else if channels == 2 {
        "Gray+A"@
    } else if channels == 3 {
        "RGB"@
    } else if channels == 4 {
        "RGBA"@
    } else {
        "\u{b7}"@
    }
}

fn channel_word(channels: u8) -> (s: &'static str)
    ensures
        s@ == channel_text(channels),
{
    match channels {
        1 => "Gray",
        2 => "Gray+A",
        3 => "RGB",
        4 => "RGBA",
        _ => "\u{b7}",
    }
}

/// Dimensions with a multiplication sign between.
pub open spec fn dims_text(w: nat, h: nat) -> Seq<char> {
    digits(w) + "\u{d7}"@ + digits(h)
}

fn dims(w: u32, h: u32) -> (s: String)
    ensures
        s@ == dims_text(w as nat, h as nat),
{
    let mut s = decimal(w as u64);
    s.append("\u{d7}");
    s.append(decimal(h as u64).as_str());
    s
}

/// The part of the metadata that every image has.
pub open spec fn meta_head(info: ImageInfo) -> Seq<char> {
    info.source_format@ + "   "@ + dims_text(info.width as nat, info.height as nat) + "   "@
        + digits(info.bit_depth as nat) + "-bit "@ + channel_text(info.channels)
}

/// The part that follows the file size.
pub open spec fn meta_tail(info: ImageInfo, icc: bool) -> Seq<char> {
    (if icc {
        "   ICC"@
    } else {
        Seq::<char>::empty()
    }) + match info.downscaled_from {
        Some(from) => "   (from "@ + dims_text(from.0 as nat, from.1 as nat) + ")"@,
        None => Seq::<char>::empty(),
    }
}

/// `text` is the metadata of an image in the status bar: its format, dimensions, depth and
/// channels, the file's size where it is known, the presence of a colour profile, and the size it
/// was reduced from.
pub open spec fn is_meta(info: ImageInfo, icc: bool, file_size: Option<u64>, text: Seq<char>) -> bool {
    match file_size {
        Some(bytes) => exists|size: Seq<char>| #[trigger]
            is_size_text(bytes as nat, size) && text == meta_head(info) + "   "@ + size + meta_tail(
                info,
                icc,
            ),
        None => text == meta_head(info) + meta_tail(info, icc),
    }
}

/// The metadata shown for an image.
pub fn format_meta(info: &ImageInfo, icc: bool, file_size: Option<u64>) -> (s: String)
    ensures
        is_meta(*info, icc, file_size, s@),
{
    let mut s = String::new();
    s.append(info.source_format.as_str());
    s.append("   ");
    s.append(dims(info.width, info.height).as_str());
    s.append("   ");
    s.append(decimal(info.bit_depth as u64).as_str());
    s.append("-bit ");
    s.append(channel_word(info.channels));
    assert(s@ =~= meta_head(*info));
    let ghost mut front = s@;
    match file_size {
        Some(bytes) => {
            let size = human_size(bytes);
            s.append("   ");
            s.append(size.as_str());
            proof {
                front = meta_head(*info) + "   "@ + size@;
                assert(s@ =~= front);
                assert(is_size_text(bytes as nat, size@));
            }
        },
        None => {},
    }
    if icc {
        s.append("   ICC");
    }
    match info.downscaled_from {
        Some((w, h)) => {
            s.append("   (from ");
            s.append(dims(w, h).as_str());
            s.append(")");
        },
        None => {},
    }
    assert(s@ =~= front + meta_tail(*info, icc));
    s
}

/// What stands behind the name in a window's title.
#[derive(Debug, Clone, Copy, PartialEq, Eq, Structural)]
pub enum TitleState {
    Loading,
    Shown,
    Failed,
}

/// The title of a window for an image.
pub open spec fn title_text(product: Seq<char>, name: Seq<char>, state: TitleState) -> Seq<char> {
    product + ": "@ + name + match state {
        TitleState::Loading => " (loading\u{2026})"@,
        TitleState::Shown => Seq::<char>::empty(),
        TitleState::Failed => " (failed)"@,
    }
}

/// The title of a window for an image.
pub fn title(product: &str, name: &str, state: TitleState) -> (s: String)
    ensures
        s@ == title_text(product@, name@, state),
{
    let mut s = String::new();
    s.append(product);
    s.append(": ");
    s.append(name);
    match state {
        TitleState::Loading => s.append(" (loading\u{2026})"),
        TitleState::Shown => {},
        TitleState::Failed => s.append(" (failed)"),
    }
    assert(s@ =~= title_text(product@, name@, state));
    s
}

/// Where a load failed.
#[derive(Debug, Clone, Copy, PartialEq, Eq, Structural)]
pub enum Failure {
    /// The file did not decode.
    Decode,
    /// The image decoded, but the device did not take it.
    Upload,
}

/// What is said of a failed load.
pub open spec fn failure_text(at: Failure, error: Seq<char>) -> Seq<char> {
    match at {
        Failure::Decode => "failed: "@ + error,
        Failure::Upload => "failed: GPU upload ("@ + error + ")"@,
    }
}

/// What is said of a failed load.
pub fn failure(at: Failure, error: &str) -> (s: String)
    ensures
        s@ == failure_text(at, error@),
{
    let mut s = String::new();
    match at {
        Failure::Decode => {
            s.append("failed: ");
            s.append(error);
        },
        Failure::Upload => {
            s.append("failed: GPU upload (");
            s.append(error);
            s.append(")");
        },
    }
    assert(s@ =~= failure_text(at, error@));
    s
}

/// The left of the status bar. Metadata is shown whenever there is any: it is what tells a failed
/// load from an empty window.
pub open spec fn left_text(label: Seq<char>, meta: Seq<char>, loading: bool, has_image: bool) -> Seq<
    char,
> {
    if loading {
        label + " \u{2014} loading\u{2026}"@
    } else if meta.len() > 0 {
        label + "   \u{b7}   "@ + meta
    } else if has_image {
        label
    } else {
        "No image"@
    }
}

/// The left of the status bar.
pub fn status_left(label: &str, meta: &str, loading: bool, has_image: bool) -> (s: String)
    ensures
        s@ == left_text(label@, meta@, loading, has_image),
{
    let mut s = String::new();
    if loading {
        s.append(label);
        s.append(" \u{2014} loading\u{2026}");
    } else if !crate::text::same_text(meta, "") {
        proof {
            reveal_strlit("");
            assert(meta@.len() > 0) by {
                if meta@.len() == 0 {
                    assert(meta@ =~= ""@);
                }
            }
        }
        s.append(label);
        s.append("   \u{b7}   ");
        s.append(meta);
    } else {
        proof {
            reveal_strlit("");
        }
        if has_image {
            s.append(label);
        } else {
            s.append("No image");
        }
    }
    assert(s@ =~= left_text(label@, meta@, loading, has_image));
    s
}

/// A part of the right of the status bar, set off from what stands before it.
pub open spec fn joined(before: Seq<char>, part: Seq<char>) -> Seq<char> {
    if before.len() == 0 {
        part
    } else {
        before + "    "@ + part
    }
}

/// What the right of the status bar is made of.
#[derive(Debug, Clone, Copy)]
pub struct StatusRight {
    /// Position and count in the folder, once its scan has landed.
    pub folder: Option<(usize, usize)>,
    /// The image's full dimensions, while one is shown.
    pub image: Option<(u32, u32)>,
    pub mip_level: u32,
    pub mip_count: u32,
    pub is_hdr: bool,
    pub zoom_percent: u32,
}

pub open spec fn folder_text(folder: Option<(usize, usize)>) -> Seq<char> {
    match folder {
        Some(f) => digits(f.0 as nat) + " / "@ + digits(f.1 as nat),
        None => Seq::<char>::empty(),
    }
}

/// The level shown and its own dimensions.
pub open spec fn mip_text(level: u32, count: u32, w: u32, h: u32) -> Seq<char> {
    "mip "@ + digits(level as nat) + "/"@ + digits((count - 1) as nat) + "  "@ + dims_text(
        crate::mips::level_dim(w, level as nat),
        crate::mips::level_dim(h, level as nat),
    )
}

/// The zoom, and for an HDR image the exposure before it.
pub open spec fn zoom_text(is_hdr: bool, exposure: Seq<char>, percent: u32) -> Seq<char> {
    (if is_hdr {
        "EV "@ + exposure + "    "@
    } else {
        Seq::<char>::empty()
    }) + digits(percent as nat) + "%"@
}

/// The right of the status bar: the place in the folder, the level shown where there is a chain to
/// walk, and the zoom.
pub open spec fn right_text(r: StatusRight, exposure: Seq<char>) -> Seq<char> {
    match r.image {
        None => folder_text(r.folder),
        Some(dims) => {
            let before = if r.mip_count > 1 {
                joined(
                    folder_text(r.folder),
                    mip_text(r.mip_level, r.mip_count, dims.0, dims.1),
                )
            } else {
                folder_text(r.folder)
            };
            joined(before, zoom_text(r.is_hdr, exposure, r.zoom_percent))
        },
    }
}

fn join(before: &mut String, part: &str, empty: bool)
    requires
        empty == (old(before)@.len() == 0),
    ensures
        final(before)@ == joined(old(before)@, part@),
{
    if !empty {
        before.append("    ");
    }
    before.append(part);
    assert(before@ =~= joined(old(before)@, part@));
}

proof fn lemma_digits_not_empty(n: nat)
    ensures
        digits(n).len() > 0,
{
}

/// The right of the status bar; `exposure` is the signed exposure with two decimals.
pub fn status_right(r: StatusRight, exposure: &str) -> (s: String)
    ensures
        s@ == right_text(r, exposure@),
{
    let mut s = String::new();
    let mut empty = true;
    match r.folder {
        Some((position, count)) => {
            s.append(decimal(position as u64).as_str());
            s.append(" / ");
            s.append(decimal(count as u64).as_str());
            empty = false;
            proof {
                lemma_digits_not_empty(position as nat);
            }
        },
        None => {},
    }
    assert(s@ =~= folder_text(r.folder));
    match r.image {
        None => {},
        Some((w, h)) => {
            if r.mip_count > 1 {
                let (lw, lh) = level_dims(w, h, r.mip_level);
                let mut part = String::new();
                part.append("mip ");
                part.append(decimal(r.mip_level as u64).as_str());
                part.append("/");
                part.append(decimal((r.mip_count - 1) as u64).as_str());
                part.append("  ");
                part.append(dims(lw, lh).as_str());
                assert(part@ =~= mip_text(r.mip_level, r.mip_count, w, h));
                join(&mut s, part.as_str(), empty);
                proof {
                    lemma_digits_not_empty(r.mip_level as nat);
                }
                empty = false;
            }
            let mut part = String::new();
            if r.is_hdr {
                part.append("EV ");
                part.append(exposure);
                part.append("    ");
            }
            part.append(decimal(r.zoom_percent as u64).as_str());
            part.append("%");
            assert(part@ =~= zoom_text(r.is_hdr, exposure@, r.zoom_percent));
            join(&mut s, part.as_str(), empty);
        },
    }
    s
}

/// A file that failed to load is never reported as an empty window.
pub proof fn law_failure_is_reported(label: Seq<char>, reason: Seq<char>, has_image: bool)
    requires
        reason.len() > 0,
    ensures
        left_text(label, reason, false, has_image) == label + "   \u{b7}   "@ + reason,
{
}

/// Numbers are written in decimal without leading zeros: the digits read back as the number.
pub proof fn law_digits_read_back(n: nat)
    ensures
        crate::natural::number(digits(n)) == n,
        digits(n).len() > 0,
        forall|k: int| 0 <= k < digits(n).len() ==> crate::text::is_digit(#[trigger] digits(n)[k]),
        n >= 1 ==> digits(n)[0] != '0',
        n < 10 <==> digits(n).len() == 1,
    decreases n,
{
    if n < 10 {
        let s = digits(n);
        assert(s.drop_last() =~= Seq::<char>::empty());
        assert(crate::natural::number(s.drop_last()) == 0);
        assert(crate::text::is_digit(s[0]));
    } else {
        law_digits_read_back(n / 10);
        let s = digits(n);
        assert(s.drop_last() =~= digits(n / 10));
        assert(s.last() == digit(n % 10));
        assert(crate::text::is_digit(digit(n % 10)));
        assert(s[0] == digits(n / 10)[0]);
    }
}

/// A quotient is rounded to the nearest whole number, and halfway between two to the even one.
pub proof fn law_quotients_round_to_nearest(n: nat, d: nat)
    requires
        d > 0,
    ensures
        2 * (n - half_even(n, d) * d) <= d,
        2 * (half_even(n, d) * d - n) <= d,
        2 * (n - half_even(n, d) * d) == d || 2 * (half_even(n, d) * d - n) == d ==> half_even(n, d)
            % 2 == 0,
        d == 1 ==> half_even(n, d) == n,
{
    let (q, r) = (n as int / d as int, n as int % d as int);
    vstd::arithmetic::div_mod::lemma_fundamental_div_mod(n as int, d as int);
    vstd::arithmetic::mul::lemma_mul_is_commutative(d as int, q);
    vstd::arithmetic::mul::lemma_mul_is_distributive_add_other_way(d as int, q, 1);
    assert(0 <= r < d);
    if d == 1 {
        assert(r == 0);
    }
}

/// A size with one decimal is its number of tenths with a point before the last digit.
pub proof fn law_tenths_have_one_decimal(t: nat)
    requires
        t >= 10,
    ensures
        tenths_text(t)[tenths_text(t).len() - 2] == '.',
        tenths_text(t).remove(tenths_text(t).len() - 2) == digits(t),
{
    let s = tenths_text(t);
    assert(s.remove(s.len() - 2) =~= digits(t / 10).push(digit(t % 10)));
}

/// Which unit a size has goes by the size alone, each from 1024 of the one before: bytes,
/// kilobytes, megabytes, gigabytes.
pub proof fn law_size_units(bytes: nat, text: Seq<char>)
    requires
        is_size_text(bytes, text),
    ensures
        text.len() >= 3,
        text[text.len() - 1] == 'B',
        text[text.len() - 2] == ' ' <==> bytes < 1024,
        text[text.len() - 2] == 'K' <==> 1024 <= bytes < 1024 * 1024,
        text[text.len() - 2] == 'M' <==> 1024 * 1024 <= bytes < 1024 * 1024 * 1024,
        text[text.len() - 2] == 'G' <==> bytes >= 1024 * 1024 * 1024,
{
    reveal_strlit(" B");
    reveal_strlit(" KB");
    reveal_strlit(" MB");
    reveal_strlit(" GB");
    if bytes >= 1024 {
        let d = choose|d: nat| #[trigger] is_double_of(bytes, d) && text == scaled_text(d, bytes);
        assert(text == scaled_text(d, bytes));
    } else {
        law_digits_read_back(bytes);
    }
}

/// The width stands before the cross and the height behind it.
pub proof fn law_width_comes_first(w: nat, h: nat)
    ensures
        dims_text(w, h).take(digits(w).len() as int) == digits(w),
        dims_text(w, h).skip(digits(w).len() as int + 1) == digits(h),
        dims_text(w, h)[digits(w).len() as int] == '\u{d7}',
{
    reveal_strlit("\u{d7}");
    assert(dims_text(w, h).take(digits(w).len() as int) =~= digits(w));
    assert(dims_text(w, h).skip(digits(w).len() as int + 1) =~= digits(h));
}

/// The words for the channels end in an A exactly where there is alpha, and begin with a G for
/// grey and an R for colour.
pub proof fn law_channel_words(channels: u8)
    ensures
        channel_text(channels)[channel_text(channels).len() - 1] == 'A'
            <==> crate::image::has_alpha(channels),
        channel_text(channels)[0] == 'G' <==> channels == 1 || channels == 2,
        channel_text(channels)[0] == 'R' <==> channels == 3 || channels == 4,
{
    reveal_strlit("Gray");
    reveal_strlit("Gray+A");
    reveal_strlit("RGB");
    reveal_strlit("RGBA");
    reveal_strlit("\u{b7}");
}

/// Every title begins as that of the image on show does; only the other two states add to it,
/// each in its own way.
pub proof fn law_titles_tell_the_state(product: Seq<char>, name: Seq<char>, state: TitleState)
    ensures
        ({
            let plain = title_text(product, name, TitleState::Shown);
            let t = title_text(product, name, state);
            &&& plain == product + ": "@ + name
            &&& t.take(plain.len() as int) == plain
            &&& t.len() > plain.len() <==> state != TitleState::Shown
            &&& state == TitleState::Failed ==> t[plain.len() as int + 2] == 'f'
            &&& state == TitleState::Loading ==> t[plain.len() as int + 2] == 'l'
        }),
{
    reveal_strlit(" (loading\u{2026})");
    reveal_strlit(" (failed)");
    let plain = title_text(product, name, TitleState::Shown);
    let t = title_text(product, name, state);
    assert(plain =~= product + ": "@ + name);
    assert(t.take(plain.len() as int) =~= plain);
}

/// Both kinds of failure carry the error's own words; only that of the graphics card brackets
/// them.
pub proof fn law_failures_carry_the_error(at: Failure, error: Seq<char>)
    ensures
        at == Failure::Decode ==> failure_text(at, error).skip(8) == error,
        at == Failure::Upload ==> failure_text(at, error).subrange(20, 20 + error.len() as int)
            == error && failure_text(at, error).last() == ')' && failure_text(at, error)[8] == 'G',
{
    reveal_strlit("failed: ");
    reveal_strlit("failed: GPU upload (");
    reveal_strlit(")");
    if at == Failure::Decode {
        assert(failure_text(at, error).skip(8) =~= error);
    } else {
        assert(failure_text(at, error).subrange(20, 20 + error.len() as int) =~= error);
    }
}

/// The left of the status bar begins with the name while there is anything to say of it. What
/// is on its way says so in place of its details, and only an empty window shows no name.
pub proof fn law_left_text_begins_with_the_name(
    label: Seq<char>,
    meta: Seq<char>,
    loading: bool,
    has_image: bool,
)
    ensures
        ({
            let t = left_text(label, meta, loading, has_image);
            &&& loading || meta.len() > 0 || has_image ==> t.take(label.len() as int) == label
            &&& !loading && meta.len() > 0 ==> t.skip(t.len() - meta.len()) == meta
            &&& loading ==> t == left_text(label, Seq::empty(), true, has_image)
            &&& loading ==> t.len() > label.len() && t != label
            &&& !loading && meta.len() == 0 && has_image ==> t == label
            &&& !loading && meta.len() == 0 && !has_image ==> t == "No image"@
        }),
{
    reveal_strlit(" \u{2014} loading\u{2026}");
    reveal_strlit("   \u{b7}   ");
    let t = left_text(label, meta, loading, has_image);
    assert(loading || meta.len() > 0 || has_image ==> t.take(label.len() as int) =~= label);
    assert(!loading && meta.len() > 0 ==> t.skip(t.len() - meta.len()) =~= meta);
}

/// The zoom closes the right of the status bar exactly where an image is on show, with the
/// exposure before it exactly where one applies; the place in the folder opens it.
pub proof fn law_right_text_ends_with_the_zoom(r: StatusRight, exposure: Seq<char>)
    ensures
        ({
            let t = right_text(r, exposure);
            let zoom = zoom_text(r.is_hdr, exposure, r.zoom_percent);
            let place = folder_text(r.folder);
            &&& r.image is None ==> t == place
            &&& r.image is Some ==> t.len() >= zoom.len() && t.skip(t.len() - zoom.len()) == zoom
            &&& zoom.last() == '%'
            &&& zoom[0] == 'E' <==> r.is_hdr
            &&& t.take(place.len() as int) == place
            &&& place.len() == 0 <==> r.folder is None
            &&& r.folder is None && r.image is Some && r.mip_count <= 1 ==> t == zoom
            &&& r.folder matches Some(f) ==> place.take(digits(f.0 as nat).len() as int) == digits(
                f.0 as nat,
            )
            &&& r.folder matches Some(f) ==> place.skip(digits(f.0 as nat).len() as int + 3) == digits(
                f.1 as nat,
            )
        }),
{
    reveal_strlit("EV ");
    reveal_strlit("    ");
    reveal_strlit("%");
    reveal_strlit(" / ");
    let t = right_text(r, exposure);
    let zoom = zoom_text(r.is_hdr, exposure, r.zoom_percent);
    let place = folder_text(r.folder);
    law_digits_read_back(r.zoom_percent as nat);
    if r.image is Some {
        assert(t.skip(t.len() - zoom.len()) =~= zoom);
    }
    if !r.is_hdr {
        assert(zoom[0] == digits(r.zoom_percent as nat)[0]);
    }
    assert(t.take(place.len() as int) =~= place);
    if r.folder is Some {
        let f = r.folder->0;
        law_digits_read_back(f.0 as nat);
        assert(place.take(digits(f.0 as nat).len() as int) =~= digits(f.0 as nat));
        assert(place.skip(digits(f.0 as nat).len() as int + 3) =~= digits(f.1 as nat));
    }
}

/// The details begin with the format and the size in pixels; a profile adds three letters, and a
/// shrunk picture the size it came from.
pub proof fn law_details_begin_with_the_format(info: ImageInfo, from: (u32, u32))
    ensures
        meta_head(info).take(info.source_format@.len() as int) == info.source_format@,
        meta_head(info).subrange(
            info.source_format@.len() as int + 3,
            info.source_format@.len() as int + 3 + dims_text(info.width as nat, info.height as nat).len(),
        ) == dims_text(info.width as nat, info.height as nat),
        meta_tail(info, true).take(6) == "   ICC"@,
        meta_tail(info, true).skip(6) == meta_tail(info, false),
        info.downscaled_from is None <==> meta_tail(info, false).len() == 0,
        info.downscaled_from == Some(from) ==> meta_tail(info, false) == "   (from "@ + dims_text(
            from.0 as nat,
            from.1 as nat,
        ) + ")"@,
{
    reveal_strlit("   ");
    reveal_strlit("   ICC");
    reveal_strlit("   (from ");
    reveal_strlit(")");
    let d = dims_text(info.width as nat, info.height as nat);
    let n = info.source_format@.len() as int;
    assert(meta_head(info).take(n) =~= info.source_format@);
    assert(meta_head(info).subrange(n + 3, n + 3 + d.len()) =~= d);
    assert(meta_tail(info, true).take(6) =~= "   ICC"@);
    assert(meta_tail(info, true).skip(6) =~= meta_tail(info, false));
    assert(meta_tail(info, false) =~= match info.downscaled_from {
        Some(from) => "   (from "@ + dims_text(from.0 as nat, from.1 as nat) + ")"@,
        None => Seq::<char>::empty(),
    });
}

/// A file's size stands between what the picture is and where it comes from; without it nothing
/// stands there.
pub proof fn law_size_stands_in_the_middle(
    info: ImageInfo,
    icc: bool,
    file_size: Option<u64>,
    text: Seq<char>,
)
    requires
        is_meta(info, icc, file_size, text),
    ensures
        text.take(meta_head(info).len() as int) == meta_head(info),
        text.len() >= meta_tail(info, icc).len(),
        text.skip(text.len() - meta_tail(info, icc).len()) == meta_tail(info, icc),
        file_size is None ==> text.len() == meta_head(info).len() + meta_tail(info, icc).len(),
        file_size matches Some(bytes) ==> is_size_text(
            bytes as nat,
            text.subrange(
                meta_head(info).len() as int + 3,
                text.len() - meta_tail(info, icc).len(),
            ),
        ),
{
    reveal_strlit("   ");
    match file_size {
        Some(bytes) => {
            let size = choose|size: Seq<char>| #[trigger]
                is_size_text(bytes as nat, size) && text == meta_head(info) + "   "@ + size
                    + meta_tail(info, icc);
            assert(text.subrange(
                meta_head(info).len() as int + 3,
                text.len() - meta_tail(info, icc).len(),
            ) =~= size);
        },
        None => {},
    }
    assert(text.take(meta_head(info).len() as int) =~= meta_head(info));
    assert(text.skip(text.len() - meta_tail(info, icc).len()) =~= meta_tail(info, icc));
}

/// A size in kilobytes is the nearest whole number of them.
pub proof fn law_kilobytes_are_nearest(bytes: nat, text: Seq<char>)
    requires
        is_size_text(bytes, text),
        1024 <= bytes < 1024 * 1024,
    ensures
        ({
            let n = crate::natural::number(text.take(text.len() - 3));
            &&& 2 * (bytes - 1024 * n) <= 1024
            &&& 2 * (1024 * n - bytes) <= 1024
        }),
{
    reveal_strlit(" KB");
    let d = choose|d: nat| #[trigger] is_double_of(bytes, d) && text == scaled_text(d, bytes);
    assert(text == scaled_text(d, bytes));
    assert(d == bytes);
    law_quotients_round_to_nearest(d, 1024);
    law_digits_read_back(half_even(d, 1024));
    assert(text.take(text.len() - 3) =~= digits(half_even(d, 1024)));
}

/// A size in megabytes or gigabytes is the nearest tenth of one.
pub proof fn law_megabytes_are_nearest_tenths(bytes: nat, text: Seq<char>)
    requires
        is_size_text(bytes, text),
        1024 * 1024 <= bytes < 0x20_0000_0000_0000,
    ensures
        ({
            let unit: int = if bytes >= 1024 * 1024 * 1024 {
                0x4000_0000
            } else {
                0x10_0000
            };
            let t = crate::natural::number(text.take(text.len() - 5)) * 10
                + crate::natural::digit_value(text[text.len() - 4]);
            &&& 2 * (10 * bytes - unit * t) <= unit
            &&& 2 * (unit * t - 10 * bytes) <= unit
        }),
{
    reveal_strlit(" MB");
    reveal_strlit(" GB");
    let d = choose|d: nat| #[trigger] is_double_of(bytes, d) && text == scaled_text(d, bytes);
    assert(text == scaled_text(d, bytes));
    assert(d == bytes);
    let unit: nat = if bytes >= 0x4000_0000 {
        0x4000_0000
    } else {
        0x10_0000
    };
    let t = half_even(10 * d, unit);
    law_quotients_round_to_nearest(10 * d, unit);
    law_digits_read_back(t / 10);
    assert(text.take(text.len() - 5) =~= digits(t / 10));
    assert(text[text.len() - 4] == digit(t % 10));
}

/// A level is shown with the last one there is and with its own size.
pub proof fn law_level_text(level: u32, count: u32, w: u32, h: u32)
    requires
        count >= 1,
    ensures
        ({
            let t = mip_text(level, count, w, h);
            let a = digits(level as nat);
            let b = digits((count - 1) as nat);
            let d = dims_text(
                crate::mips::level_dim(w, level as nat),
                crate::mips::level_dim(h, level as nat),
            );
            &&& t.subrange(4, 4 + a.len() as int) == a
            &&& t.subrange(5 + a.len() as int, 5 + a.len() as int + b.len()) == b
            &&& t.skip(t.len() - d.len()) == d
        }),
{
    reveal_strlit("mip ");
    reveal_strlit("/");
    reveal_strlit("  ");
    let t = mip_text(level, count, w, h);
    let a = digits(level as nat);
    let b = digits((count - 1) as nat);
    let d = dims_text(
        crate::mips::level_dim(w, level as nat),
        crate::mips::level_dim(h, level as nat),
    );
    assert(t.subrange(4, 4 + a.len() as int) =~= a);
    assert(t.subrange(5 + a.len() as int, 5 + a.len() as int + b.len()) =~= b);
    assert(t.skip(t.len() - d.len()) =~= d);
}

} // verus!
