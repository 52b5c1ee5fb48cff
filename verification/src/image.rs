//! What is known of a decoded image besides its pixels.
use vstd::prelude::*;

verus! {

/// The layout of a decoded pixel: four channels, in one of four encodings.
#[derive(Debug, Clone, Copy, PartialEq, Eq, Structural)]
pub enum PixelFormat {
    Rgba8Unorm,
    Rgba16Unorm,
    Rgba16Float,
    Rgba32Float,
}

/// Bytes per texel.
pub open spec fn texel_bytes(f: PixelFormat) -> nat {
    match f {
        PixelFormat::Rgba8Unorm => 4,
        PixelFormat::Rgba16Unorm => 8,
        PixelFormat::Rgba16Float => 8,
        PixelFormat::Rgba32Float => 16,
    }
}

/// Whether a format holds high dynamic range: the float ones do.
pub open spec fn is_float_format(f: PixelFormat) -> bool {
    f == PixelFormat::Rgba16Float || f == PixelFormat::Rgba32Float
}

impl PixelFormat {
    /// Whether a format holds high dynamic range.
    pub fn is_hdr(self) -> (r: bool)
        ensures
            r == is_float_format(self),
    {
        match self {
            PixelFormat::Rgba16Float | PixelFormat::Rgba32Float => true,
            _ => false,
        }
    }
}

/// Bytes per texel of `format` as the decoder hands it over.
pub fn bytes_per_texel(format: PixelFormat) -> (n: usize)
    ensures
        n == texel_bytes(format),
{
    match format {
        PixelFormat::Rgba8Unorm => 4,
        PixelFormat::Rgba16Unorm | PixelFormat::Rgba16Float => 8,
        PixelFormat::Rgba32Float => 16,
    }
}

/// A decoded image but for its pixels.
#[derive(Debug, Clone)]
pub struct ImageInfo {
    pub width: u32,
    pub height: u32,
    pub format: PixelFormat,
    /// Bits per channel of the source.
    pub bit_depth: u8,
    /// Channels of the source: grey, grey with alpha, colour, colour with alpha.
    pub channels: u8,
    /// Whether every alpha sample is opaque.
    pub alpha_opaque: bool,
    /// The name of the source's file format.
    pub source_format: String,
    /// The source's dimensions where it was decoded smaller.
    pub downscaled_from: Option<(u32, u32)>,
    /// The delays in milliseconds of an animated source's frames.
    pub frame_delays: Option<Vec<u32>>,
}

/// Whether a source carries an alpha channel, opaque or not.
pub open spec fn has_alpha(channels: u8) -> bool {
    channels == 2 || channels == 4
}

/// A texel holds four samples: one byte each in the plain format, two in the sixteen-bit ones
/// and four in the widest; only the two float formats can hold more than white.
pub proof fn law_texels_hold_four_samples(f: PixelFormat)
    ensures
        texel_bytes(f) % 4 == 0,
        texel_bytes(f) / 4 == 1 <==> f == PixelFormat::Rgba8Unorm,
        texel_bytes(f) / 4 == 2 <==> f == PixelFormat::Rgba16Unorm || f == PixelFormat::Rgba16Float,
        texel_bytes(f) / 4 == 4 <==> f == PixelFormat::Rgba32Float,
        is_float_format(f) <==> f != PixelFormat::Rgba8Unorm && f != PixelFormat::Rgba16Unorm,
{
}

/// Alpha comes as the last of an even number of channels: grey with alpha or colour with alpha.
pub proof fn law_alpha_makes_channels_even(channels: u8)
    requires
        1 <= channels <= 4,
    ensures
        has_alpha(channels) <==> channels % 2 == 0,
{
}

} // verus!
