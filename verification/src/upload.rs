//! What of an image goes to the GPU: the texture format that the device can take, the levels of
//! the mip chain, and the conversion of their texels.
use vstd::prelude::*;

use crate::half::{f32_to_f16, u16_to_f16};
use crate::image::{bytes_per_texel, PixelFormat};
use crate::mips::{build, level_count};

verus! {

/// A texture format of the device.
#[derive(Debug, Clone, Copy, PartialEq, Eq, Structural)]
pub enum TextureFormat {
    /// 8 bits per channel, decoded from sRGB when sampled.
    Srgb8a8,
    Rgba16,
    Rgba16f,
    Rgba32f,
}

/// How the texels are converted on their way.
#[derive(Debug, Clone, Copy, PartialEq, Eq, Structural)]
pub enum Convert {
    Plain,
    /// 16-bit fractions of one to half precision.
    UnormToHalf,
    /// Single precision to half precision.
    SingleToHalf,
}

/// What the device can do.
#[derive(Debug, Clone, Copy, PartialEq, Eq, Structural)]
pub struct Device {
    /// It samples 16-bit fractions.
    pub norm16: bool,
    /// It filters single-precision textures.
    pub float32_filterable: bool,
}

/// How an image of a format is held on the device.
#[derive(Debug, Clone, Copy, PartialEq, Eq, Structural)]
pub struct TexturePlan {
    pub format: TextureFormat,
    /// Whether a sample is linear already, or the shader decodes it.
    pub linear_sample: bool,
    pub convert: Convert,
}

/// How an image of a format is held on the device. 16-bit fractions are sRGB-encoded and decoded
/// in the shader; the float formats are linear.
pub open spec fn planned_texture(format: PixelFormat, d: Device) -> TexturePlan {
    match format {
        PixelFormat::Rgba8Unorm => TexturePlan {
            format: TextureFormat::Srgb8a8,
            linear_sample: true,
            convert: Convert::Plain,
        },
        PixelFormat::Rgba16Unorm => TexturePlan {
            format: if d.norm16 {
                TextureFormat::Rgba16
            } else {
                TextureFormat::Rgba16f
            },
            linear_sample: false,
            convert: if d.norm16 {
                Convert::Plain
            } else {
                Convert::UnormToHalf
            },
        },
        PixelFormat::Rgba16Float => TexturePlan {
            format: TextureFormat::Rgba16f,
            linear_sample: true,
            convert: Convert::Plain,
        },
        PixelFormat::Rgba32Float => TexturePlan {
            format: if d.float32_filterable {
                TextureFormat::Rgba32f
            } else {
                TextureFormat::Rgba16f
            },
            linear_sample: true,
            convert: if d.float32_filterable {
                Convert::Plain
            } else {
                Convert::SingleToHalf
            },
        },
    }
}

/// How an image of a format is held on the device.
pub fn texture_plan(format: PixelFormat, d: Device) -> (p: TexturePlan)
    ensures
        p == planned_texture(format, d),
        p.linear_sample <==> format != PixelFormat::Rgba16Unorm,
{
    match format {
        PixelFormat::Rgba8Unorm => TexturePlan {
            format: TextureFormat::Srgb8a8,
            linear_sample: true,
            convert: Convert::Plain,
        },
        PixelFormat::Rgba16Unorm => if d.norm16 {
            TexturePlan {
                format: TextureFormat::Rgba16,
                linear_sample: false,
                convert: Convert::Plain,
            }
        } else {
            TexturePlan {
                format: TextureFormat::Rgba16f,
                linear_sample: false,
                convert: Convert::UnormToHalf,
            }
        },
        PixelFormat::Rgba16Float => TexturePlan {
            format: TextureFormat::Rgba16f,
            linear_sample: true,
            convert: Convert::Plain,
        },
        PixelFormat::Rgba32Float => if d.float32_filterable {
            TexturePlan {
                format: TextureFormat::Rgba32f,
                linear_sample: true,
                convert: Convert::Plain,
            }
        } else {
            TexturePlan {
                format: TextureFormat::Rgba16f,
                linear_sample: true,
                convert: Convert::SingleToHalf,
            }
        },
    }
}

/// Bytes per texel of a texture format.
pub open spec fn texture_bytes(f: TextureFormat) -> nat {
    match f {
        TextureFormat::Srgb8a8 => 4,
        TextureFormat::Rgba16 | TextureFormat::Rgba16f => 8,
        TextureFormat::Rgba32f => 16,
    }
}

/// The texels that a conversion leaves have the size that the texture's format asks for.
pub proof fn law_plan_sizes_agree(format: PixelFormat, d: Device)
    ensures
        texture_bytes(planned_texture(format, d).format) == crate::image::texel_bytes(format)
            / (if planned_texture(format, d).convert == Convert::SingleToHalf {
            2nat
        } else {
            1nat
        }),
{
}

/// `out` is a level's bytes after a conversion.
pub open spec fn is_converted(bytes: Seq<u8>, convert: Convert, out: Seq<u8>) -> bool {
    match convert {
        Convert::Plain => out == bytes,
        Convert::UnormToHalf => {
            &&& out.len() == bytes.len() / 2 * 2
            &&& forall|i: int|
                0 <= i < bytes.len() / 2 ==> crate::half::is_unorm_half(
                    #[trigger] crate::half::le16_at(bytes, 2 * i),
                    crate::half::le16_at(out, 2 * i),
                )
        },
        Convert::SingleToHalf => {
            &&& out.len() == bytes.len() / 4 * 2
            &&& forall|i: int|
                0 <= i < bytes.len() / 4 ==> crate::half::is_narrowed(
                    #[trigger] crate::half::le32_at(bytes, 4 * i),
                    crate::half::le16_at(out, 2 * i),
                )
        },
    }
}

fn convert_level(bytes: &Vec<u8>, convert: Convert) -> (out: Vec<u8>)
    ensures
        is_converted(bytes@, convert, out@),
{
    match convert {
        Convert::Plain => leading(bytes, bytes.len()),
        Convert::UnormToHalf => u16_to_f16(bytes.as_slice()),
        Convert::SingleToHalf => f32_to_f16(bytes.as_slice()),
    }
}

fn leading(bytes: &Vec<u8>, n: usize) -> (out: Vec<u8>)
    requires
        n <= bytes.len(),
    ensures
        out@ == bytes@.take(n as int),
        n == bytes.len() ==> out@ == bytes@,
{
    let mut out: Vec<u8> = Vec::new();
    let mut i: usize = 0;
    while i < n
        invariant
            i <= n <= bytes.len(),
            out@ =~= bytes@.take(i as int),
        decreases n - i,
    {
        out.push(bytes[i]);
        i += 1;
    }
    assert(n == bytes.len() ==> bytes@.take(n as int) =~= bytes@);
    out
}

/// Whether a supplied chain is one for the image: a level for each but the first.
pub open spec fn is_full(mips: Option<Vec<Vec<u8>>>, w: u32, h: u32) -> bool {
    mips matches Some(m) && crate::mips::is_level_count(
        crate::mips::larger(crate::mips::larger(w, h), 1) as nat,
        (m.len() + 1) as nat,
    )
}

/// `levels` are the converted bytes of level 0 and of the levels of `chain`.
pub open spec fn are_converted(
    level0: Seq<u8>,
    chain: Seq<Vec<u8>>,
    convert: Convert,
    levels: Seq<Vec<u8>>,
) -> bool {
    &&& levels.len() == chain.len() + 1
    &&& is_converted(level0, convert, levels[0]@)
    &&& forall|i: int|
        0 <= i < chain.len() ==> is_converted(chain[i]@, convert, (#[trigger] levels[i + 1])@)
}

/// `levels` are what goes to the GPU where no chain was supplied that fits: a chain reduced from
/// level 0.
pub open spec fn are_built<F: Fn(&Vec<u8>, usize, usize, usize, usize) -> Vec<u8>>(
    average: F,
    level0: Vec<u8>,
    w: u32,
    h: u32,
    format: PixelFormat,
    convert: Convert,
    levels: Seq<Vec<u8>>,
) -> bool {
    exists|chain: Seq<Vec<u8>>| #[trigger]
        are_converted(level0@, chain, convert, levels) && crate::mips::is_chain(
            average,
            &level0,
            chain,
            w,
            h,
            crate::image::texel_bytes(format) as int,
            0,
        )
}

/// [`are_built`] from a level 0 of these bytes.
pub open spec fn are_reduced<F: Fn(&Vec<u8>, usize, usize, usize, usize) -> Vec<u8>>(
    average: F,
    bytes: Seq<u8>,
    w: u32,
    h: u32,
    format: PixelFormat,
    convert: Convert,
    levels: Seq<Vec<u8>>,
) -> bool {
    exists|level0: Vec<u8>|
        (#[trigger] level0@) == bytes && are_built(average, level0, w, h, format, convert, levels)
}

/// The bytes of every mip level of an image, as they go to the GPU: level 0, then the supplied
/// chain where it has a level for each, else one that is reduced here. None where the pixels are
/// fewer than the dimensions declare.
pub fn texture_levels<F: Fn(&Vec<u8>, usize, usize, usize, usize) -> Vec<u8>>(
    pixels: &Vec<u8>,
    w: u32,
    h: u32,
    format: PixelFormat,
    mips: Option<Vec<Vec<u8>>>,
    convert: Convert,
    average: &F,
) -> (r: Option<Vec<Vec<u8>>>)
    requires
        crate::mips::averages_texels(*average, crate::image::texel_bytes(format) as int),
        w > 1 ==> h > 0,
        h > 1 ==> w > 0,
    ensures
        r is None <==> pixels.len() < w * h * crate::image::texel_bytes(format),
        r matches Some(levels) ==> {
            let level0 = pixels@.take(w * h * crate::image::texel_bytes(format));
            &&& crate::mips::is_level_count(
                crate::mips::larger(crate::mips::larger(w, h), 1) as nat,
                levels.len() as nat,
            )
            &&& is_full(mips, w, h) ==> are_converted(level0, (mips->0)@, convert, levels@)
            &&& !is_full(mips, w, h) ==> are_reduced(
                *average,
                level0,
                w,
                h,
                format,
                convert,
                levels@,
            )
        },
{
    let texel = bytes_per_texel(format);
    let ghost needed = w * h * crate::image::texel_bytes(format);
    proof {
        assert(w * h <= 0xffff_ffff * 0xffff_ffff) by (nonlinear_arith)
            requires
                w <= 0xffff_ffff,
                h <= 0xffff_ffff,
        ;
    }
    let area: u64 = w as u64 * h as u64;
    proof {
        assert(area * texel == needed);
        assert(area <= area * texel) by (nonlinear_arith)
            requires
                texel >= 1,
        ;
    }
    let count: u128 = area as u128 * texel as u128;
    if (pixels.len() as u128) < count {
        return None;
    }
    let level0 = leading(pixels, count as usize);
    let levels = level_count(w, h) as usize;
    let mut chain: Vec<Vec<u8>> = Vec::new();
    let mut given = false;
    match mips {
        Some(m) => {
            if m.len() == levels - 1 {
                chain = m;
                given = true;
            } else {
                proof {
                    if is_full(mips, w, h) {
                        lemma_one_level_count(
                            crate::mips::larger(crate::mips::larger(w, h), 1) as nat,
                            (m.len() + 1) as nat,
                            levels as nat,
                        );
                    }
                }
            }
        },
        None => {},
    }
    assert(given == is_full(mips, w, h));
    assert(given ==> chain@ == (mips->0)@);
    if !given {
        chain = build(&level0, w, h, format, average);
    }
    let ghost all = chain@;
    let mut out: Vec<Vec<u8>> = Vec::new();
    out.push(convert_level(&level0, convert));
    let mut i: usize = 0;
    while i < chain.len()
        invariant
            i <= chain.len(),
            chain@ == all,
            out.len() == i + 1,
            is_converted(level0@, convert, out@[0]@),
            forall|k: int|
                0 <= k < i ==> is_converted(all[k]@, convert, (#[trigger] out@[k + 1])@),
        decreases chain.len() - i,
    {
        let ghost before = out@;
        out.push(convert_level(&chain[i], convert));
        proof {
            assert forall|k: int| 0 <= k < i + 1 implies is_converted(
                all[k]@,
                convert,
                (#[trigger] out@[k + 1])@,
            ) by {
                if k < i {
                    assert(out@[k + 1] == before[k + 1]);
                }
            }
        }
        i += 1;
    }
    assert(are_converted(level0@, all, convert, out@));
    assert(!given ==> are_built(*average, level0, w, h, format, convert, out@));
    assert(level0@ == pixels@.take(needed));
    assert(!given ==> are_reduced(
        *average,
        pixels@.take(needed),
        w,
        h,
        format,
        convert,
        out@,
    ));
    assert(crate::mips::is_level_count(
        crate::mips::larger(crate::mips::larger(w, h), 1) as nat,
        out.len() as nat,
    ));
    Some(out)
}

proof fn lemma_one_level_count(m: nat, a: nat, b: nat)
    requires
        crate::mips::is_level_count(m, a),
        crate::mips::is_level_count(m, b),
    ensures
        a == b,
{
    if a < b {
        if a < b - 1 {
            vstd::arithmetic::power2::lemma_pow2_strictly_increases(a, (b - 1) as nat);
        }
    } else if b < a {
        if b < a - 1 {
            vstd::arithmetic::power2::lemma_pow2_strictly_increases(b, (a - 1) as nat);
        }
    }
}

/// The passes that fill a texture's mip chain on the GPU: each level is drawn from the one above.
pub fn mip_passes(levels: u32) -> (r: Vec<(u32, u32)>)
    ensures
        levels <= 1 ==> r.len() == 0,
        levels > 1 ==> r.len() == levels - 1,
        forall|i: int| 0 <= i < r.len() ==> #[trigger] r@[i] == (i as u32, (i + 1) as u32),
{
    let mut r: Vec<(u32, u32)> = Vec::new();
    let mut level: u32 = 1;
    while level < levels
        invariant
            1 <= level,
            levels <= 1 ==> level == 1,
            levels > 1 ==> level <= levels,
            r.len() == level - 1,
            forall|i: int| 0 <= i < r.len() ==> #[trigger] r@[i] == (i as u32, (i + 1) as u32),
        decreases levels - level,
    {
        r.push((level - 1, level));
        level += 1;
    }
    r
}

/// What came of a frame.
#[derive(Debug, Clone, Copy, PartialEq, Eq, Structural)]
pub enum Presented {
    /// Nothing was drawn.
    Skipped,
    /// It went to the display; `waited` says whether that took until the display was ready.
    Yes { waited: bool },
}

/// What came of a frame that was presented: a wait for the display takes at least half a
/// millisecond, and only a window that is looked at waits.
pub fn presented(looking: bool, micros: u64) -> (p: Presented)
    ensures
        p == (Presented::Yes { waited: looking && micros >= 500 }),
{
    Presented::Yes { waited: looking && micros >= 500 }
}

/// Whether playback asks for the next frame: only after a frame that waited, so that the display
/// paces it and an unseen window does not spin.
pub fn paces_playback(p: Presented, playing: bool) -> (r: bool)
    ensures
        r == (p == (Presented::Yes { waited: true }) && playing),
{
    match p {
        Presented::Yes { waited } => waited && playing,
        Presented::Skipped => false,
    }
}

/// The shader decodes exactly the samples that are still sRGB-encoded: those of 16-bit integers.
/// Eight-bit samples are decoded by the texture, and every float format is linear already, whatever
/// the device.
pub proof fn law_only_encoded_samples_are_decoded(format: PixelFormat, d: Device)
    ensures
        planned_texture(format, d).linear_sample <==> format != PixelFormat::Rgba16Unorm,
        crate::image::is_float_format(format) ==> planned_texture(format, d).linear_sample,
        planned_texture(format, d).format == TextureFormat::Srgb8a8 <==> format
            == PixelFormat::Rgba8Unorm,
{
}

/// What the device can hold is uploaded as it is; what it cannot is converted to half floats, and
/// nothing else is.
pub proof fn law_conversion_only_where_needed(format: PixelFormat, d: Device)
    ensures
        planned_texture(format, d).convert == Convert::UnormToHalf <==> format
            == PixelFormat::Rgba16Unorm && !d.norm16,
        planned_texture(format, d).convert == Convert::SingleToHalf <==> format
            == PixelFormat::Rgba32Float && !d.float32_filterable,
        planned_texture(format, d).format == TextureFormat::Rgba32f <==> format
            == PixelFormat::Rgba32Float && d.float32_filterable,
        planned_texture(format, d).format == TextureFormat::Rgba16 <==> format
            == PixelFormat::Rgba16Unorm && d.norm16,
        planned_texture(format, d).convert != Convert::Plain ==> planned_texture(format, d).format
            == TextureFormat::Rgba16f,
        planned_texture(PixelFormat::Rgba16Float, d).format == TextureFormat::Rgba16f,
{
}

/// A texture holds four channels of one, two or four bytes each.
pub proof fn law_texture_texels(f: TextureFormat)
    ensures
        texture_bytes(TextureFormat::Srgb8a8) == 4 * 1,
        texture_bytes(TextureFormat::Rgba16) == 4 * 2,
        texture_bytes(TextureFormat::Rgba16f) == 4 * 2,
        texture_bytes(TextureFormat::Rgba32f) == 4 * 4,
{
}

/// A plain upload changes no byte, and a conversion gives one half for every sample: as many bytes
/// from 16-bit integers, half as many from single floats.
pub proof fn law_conversions_keep_every_sample(bytes: Seq<u8>, out: Seq<u8>)
    ensures
        is_converted(bytes, Convert::Plain, out) ==> out == bytes,
        is_converted(bytes, Convert::UnormToHalf, out) && bytes.len() % 2 == 0 ==> out.len()
            == bytes.len(),
        is_converted(bytes, Convert::SingleToHalf, out) && bytes.len() % 4 == 0 ==> 2 * out.len()
            == bytes.len(),
{
}

/// The levels go up in order, the picture itself first; without a conversion they are the bytes
/// that they were.
pub proof fn law_levels_go_up_in_order(
    level0: Seq<u8>,
    chain: Seq<Vec<u8>>,
    convert: Convert,
    levels: Seq<Vec<u8>>,
    i: int,
)
    requires
        are_converted(level0, chain, convert, levels),
        0 <= i < chain.len(),
    ensures
        levels.len() == chain.len() + 1,
        convert == Convert::Plain ==> levels[0]@ == level0,
        convert == Convert::Plain ==> levels[i + 1]@ == chain[i]@,
        convert == Convert::SingleToHalf ==> levels[0].len() == level0.len() / 4 * 2,
        convert == Convert::UnormToHalf ==> levels[0].len() == level0.len() / 2 * 2,
{
    assert(is_converted(chain[i]@, convert, levels[i + 1]@));
}

/// Levels that came with the file are all there only where they end in one texel.
pub proof fn law_full_levels_end_in_one_texel(m: Vec<Vec<u8>>, w: u32, h: u32)
    ensures
        !is_full(None, w, h),
        is_full(Some(m), w, h) ==> crate::mips::level_dim(w, m@.len()) == 1
            && crate::mips::level_dim(h, m@.len()) == 1,
{
    if is_full(Some(m), w, h) {
        crate::mips::law_chain_ends_in_one_texel(w, h, (m.len() + 1) as nat, 0);
    }
}

} // verus!
