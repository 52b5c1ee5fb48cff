use fire::half::{f16_bits_to_f32, f32_to_f16, f32_to_f16_bits, u16_to_f16};
use fire::image::PixelFormat;
use fire::mips::{build, complete, level_count, level_dims, reduce_rows, row_bands};
use fire::single::Single;
use fire::upload::{
    mip_passes, paces_playback, presented, texture_levels, texture_plan, Convert, Device,
    Presented, TextureFormat,
};

fn num(v: f32) -> Single {
    Single::from_bits(v.to_bits())
}

fn value(s: Single) -> f32 {
    f32::from_bits(s.to_bits())
}

fn to_linear(v: u8) -> f32 {
    let c = v as f32 / 255.0;
    if c <= 0.04045 {
        c / 12.92
    } else {
        ((c + 0.055) / 1.055).powf(2.4)
    }
}

fn to_srgb(c: f32) -> u8 {
    let s = if c <= 0.0031308 {
        c * 12.92
    } else {
        1.055 * c.powf(1.0 / 2.4) - 0.055
    };
    (s * 255.0 + 0.5) as u8
}

fn srgb(px: &Vec<u8>, a: usize, b: usize, c: usize, d: usize) -> Vec<u8> {
    (0..4)
        .map(|i| {
            if i == 3 {
                let s: u32 = [a, b, c, d].iter().map(|o| px[o + i] as u32).sum();
                ((s + 2) / 4) as u8
            } else {
                to_srgb([a, b, c, d].iter().map(|o| to_linear(px[o + i])).sum::<f32>() / 4.0)
            }
        })
        .collect()
}

fn load_f32(b: &[u8]) -> [f32; 4] {
    let at = |i: usize| f32::from_le_bytes([b[i], b[i + 1], b[i + 2], b[i + 3]]);
    [at(0), at(4), at(8), at(12)]
}

fn float(px: &Vec<u8>, a: usize, b: usize, c: usize, d: usize) -> Vec<u8> {
    let mut out = Vec::new();
    for i in 0..4 {
        let s: f32 = [a, b, c, d].iter().map(|o| load_f32(&px[*o..*o + 16])[i]).sum();
        out.extend_from_slice(&(s / 4.0).to_le_bytes());
    }
    out
}

#[test]
fn f16_conversion_round_trips_representable_values() {
    for v in [
        0.0f32,
        1.0,
        -1.0,
        0.5,
        0.25,
        2.0,
        1024.0,
        65504.0,
        6.1035156e-5,
        1.0 / 3.0,
    ] {
        let h = f32_to_f16_bits(num(v));
        let back = value(f16_bits_to_f32(h));
        assert!(
            (back - v).abs() <= v.abs() * 1e-3 + 1e-7,
            "{v} -> {h:#06x} -> {back}"
        );
    }
    assert_eq!(f32_to_f16_bits(num(1e6)), 0x7c00); // overflow → +inf
    assert_eq!(f32_to_f16_bits(num(-1e6)), 0xfc00);
    assert!(value(f16_bits_to_f32(f32_to_f16_bits(num(f32::NAN)))).is_nan());
    assert_eq!(f32_to_f16_bits(num(1e-9)), 0); // underflow → 0
}

#[test]
fn mip_chain_length() {
    assert_eq!(level_count(1, 1), 1);
    assert_eq!(level_count(2, 1), 2);
    assert_eq!(level_count(256, 128), 9);
    assert_eq!(level_count(1000, 3), 10);
}

#[test]
fn chain_has_one_buffer_per_level_with_halved_dims() {
    let (w, h) = (5u32, 3u32);
    let px = vec![0u8; (w * h * 4) as usize];
    let chain = build(&px, w, h, PixelFormat::Rgba8Unorm, &srgb);
    assert_eq!(chain.len(), 2); // 5×3 → 2×1 → 1×1
    assert_eq!(chain[0].len(), 2 * 4); // 2×1 px, 4 bytes each
    assert_eq!(chain[1].len(), 4);
    assert!(build(&px[..8].to_vec(), w, h, PixelFormat::Rgba8Unorm, &srgb).is_empty());
}

#[test]
fn box_filter_averages_in_linear_light() {
    // Black and white average to linear 0.5, which is sRGB 188 — not 128.
    let px = vec![
        0, 0, 0, 255, 255, 255, 255, 255, 0, 0, 0, 255, 255, 255, 255, 255,
    ];
    let chain = build(&px, 2, 2, PixelFormat::Rgba8Unorm, &srgb);
    assert_eq!(chain.len(), 1);
    assert_eq!(&chain[0][..3], &[188, 188, 188]);
    assert_eq!(chain[0][3], 255);
}

#[test]
fn float_levels_average_exactly() {
    let mut px = Vec::new();
    for v in [1.0f32, 3.0, 5.0, 7.0] {
        for _ in 0..4 {
            px.extend_from_slice(&v.to_le_bytes());
        }
    }
    let chain = build(&px, 2, 2, PixelFormat::Rgba32Float, &float);
    assert_eq!(load_f32(&chain[0][..16]), [4.0; 4]);
}

/// Levels floor-halve and stop at 1, on each axis independently — the rule a DDS stores its
/// own chain by, which is what lets one be adopted without rescaling.
#[test]
fn level_dims_floor_halve_and_never_reach_zero() {
    assert_eq!(level_dims(8, 4, 0), (8, 4));
    assert_eq!(level_dims(8, 4, 2), (2, 1));
    assert_eq!(level_dims(8, 4, 3), (1, 1));
    // Past the end of the chain, and past a shift that would be undefined.
    assert_eq!(level_dims(8, 4, 99), (1, 1));
    // Non-power-of-two floors rather than rounds.
    assert_eq!(level_dims(5, 3, 1), (2, 1));
}

/// A solid buffer of `v` at `w`x`h`, RGBA8.
fn solid(w: u32, h: u32, v: u8) -> Vec<u8> {
    vec![v; w as usize * h as usize * 4]
}

/// A full chain from the file is taken exactly as given: the point of an authored chain is
/// that its levels are *not* what a box filter would have produced.
#[test]
fn complete_adopts_a_full_chain_untouched() {
    let level0 = solid(4, 4, 10);
    let supplied = vec![solid(2, 2, 200), solid(1, 1, 250)];
    let chain = complete(supplied.clone(), &level0, 4, 4, PixelFormat::Rgba8Unorm, &srgb);
    assert_eq!(chain, supplied, "no level was recomputed");
}

/// A file may stop its chain early. What it supplied is kept, and only the tail is computed —
/// from the last authored level, not from level 0, so the authored data stays upstream.
#[test]
fn complete_pads_a_partial_chain_from_the_last_authored_level() {
    // Level 0 is black, but the file's level 1 is white. A correctly padded level 2 must come
    // from the white level 1, not from the black level 0.
    let level0 = solid(4, 4, 0);
    let chain = complete(
        vec![solid(2, 2, 255)],
        &level0,
        4,
        4,
        PixelFormat::Rgba8Unorm,
        &srgb,
    );
    assert_eq!(chain.len(), 2, "4x4 has three levels in all");
    assert_eq!(chain[0], solid(2, 2, 255));
    assert_eq!(
        chain[1],
        solid(1, 1, 255),
        "padded from level 1, not level 0"
    );
}

/// A level whose length does not match its dimensions ends the adopted run: past a bad
/// offset the file's own layout is no longer trustworthy, so the rest is recomputed.
#[test]
fn complete_stops_adopting_at_a_wrong_sized_level() {
    let level0 = solid(4, 4, 0);
    let chain = complete(
        vec![solid(2, 2, 255), vec![1u8; 3]],
        &level0,
        4,
        4,
        PixelFormat::Rgba8Unorm,
        &srgb,
    );
    assert_eq!(chain.len(), 2);
    assert_eq!(chain[0], solid(2, 2, 255));
    assert_eq!(chain[1], solid(1, 1, 255), "the short level was recomputed");
}

/// A header can claim more levels than the dimensions allow. The extras are dropped rather
/// than uploaded.
#[test]
fn the_tail_is_built_from_the_last_level_kept() {
    let level0: Vec<u8> = (0..13 * 6 * 4).map(|i| (i * 7 % 251) as u8).collect();
    let (w, h) = level_dims(13, 6, 1);
    let authored: Vec<u8> = (0..w * h * 4).map(|i| (i * 3 % 199) as u8).collect();
    let format = PixelFormat::Rgba8Unorm;
    let chain = complete(vec![authored.clone()], &level0, 13, 6, format, &srgb);
    assert_eq!(chain.len() as u32, level_count(13, 6) - 1);
    assert_eq!(chain[0], authored);
    assert_eq!(chain[1..], build(&authored, w, h, format, &srgb)[..]);
}

#[test]
fn complete_drops_levels_past_the_end_of_the_chain() {
    let level0 = solid(2, 2, 0);
    let chain = complete(
        vec![solid(1, 1, 9), solid(1, 1, 9), solid(1, 1, 9)],
        &level0,
        2,
        2,
        PixelFormat::Rgba8Unorm,
        &srgb,
    );
    assert_eq!(chain.len(), level_count(2, 2) as usize - 1);
}

/// No usable chain at all falls back to building the whole thing.
#[test]
fn complete_with_nothing_supplied_matches_build() {
    let level0 = solid(4, 4, 40);
    assert_eq!(
        complete(Vec::new(), &level0, 4, 4, PixelFormat::Rgba8Unorm, &srgb),
        build(&level0, 4, 4, PixelFormat::Rgba8Unorm, &srgb)
    );
}

/// A level 0 shorter than its dimensions declare yields no chain rather than a read past the
/// end — the same refusal `build` makes.
#[test]
fn complete_refuses_a_short_level_zero() {
    assert!(complete(Vec::new(), &vec![0u8; 3], 4, 4, PixelFormat::Rgba8Unorm, &srgb).is_empty());
}

#[test]
fn f16_round_trip_is_exact_for_every_half() {
    for h in 0..=u16::MAX {
        let x = value(f16_bits_to_f32(h));
        if x.is_nan() {
            assert!(h & 0x7c00 == 0x7c00 && h & 0x3ff != 0);
        } else {
            assert_eq!(f32_to_f16_bits(num(x)), h);
        }
    }
    assert_eq!(f32_to_f16_bits(num(1.0)), 0x3c00);
    assert_eq!(f32_to_f16_bits(num(65504.0)), 0x7bff);
    assert_eq!(value(f16_bits_to_f32(0x0001)), 2.0f32.powi(-24));
}

#[test]
fn channels_become_halves() {
    let mut bytes = Vec::new();
    bytes.extend_from_slice(&65535u16.to_ne_bytes());
    bytes.extend_from_slice(&0u16.to_ne_bytes());
    let out = u16_to_f16(&bytes);
    assert_eq!(out[..2], 0x3c00u16.to_ne_bytes());
    assert_eq!(out[2..], 0u16.to_ne_bytes());
    let out = f32_to_f16(&0.5f32.to_ne_bytes());
    assert_eq!(out, 0x3800u16.to_ne_bytes());
}

#[test]
fn every_chain_ends_in_one_texel() {
    for (w, h) in [(1, 1), (7, 3), (4096, 1), (1000, 1001)] {
        let n = level_count(w, h);
        assert_eq!(level_dims(w, h, n - 1), (1, 1));
    }
}

#[test]
fn bands_join_to_the_whole_level() {
    let bands = row_bands(1024, 1024, 8);
    assert!(bands.len() > 1 && bands.len() <= 8);
    let mut at = 0;
    for (first, rows) in bands {
        assert_eq!(first, at);
        at += rows;
    }
    assert_eq!(at, 1024);
    assert_eq!(row_bands(16, 16, 8), vec![(0, 16)]);

    let px: Vec<u8> = (0..8 * 8 * 4).map(|i| (i * 7 % 256) as u8).collect();
    let whole = reduce_rows(&px, 8, 8, 4, 4, 0, 4, &srgb);
    let mut parts = reduce_rows(&px, 8, 8, 4, 4, 0, 1, &srgb);
    parts.extend(reduce_rows(&px, 8, 8, 4, 4, 1, 3, &srgb));
    assert_eq!(parts, whole);
}

#[test]
fn textures_are_converted_where_the_device_lacks_the_format() {
    let full = Device { norm16: true, float32_filterable: true };
    let poor = Device { norm16: false, float32_filterable: false };
    let p = texture_plan(PixelFormat::Rgba16Unorm, full);
    assert_eq!((p.format, p.linear_sample, p.convert), (TextureFormat::Rgba16, false, Convert::Plain));
    let p = texture_plan(PixelFormat::Rgba16Unorm, poor);
    assert_eq!((p.format, p.convert), (TextureFormat::Rgba16f, Convert::UnormToHalf));
    let p = texture_plan(PixelFormat::Rgba32Float, poor);
    assert_eq!((p.format, p.convert), (TextureFormat::Rgba16f, Convert::SingleToHalf));
    let p = texture_plan(PixelFormat::Rgba8Unorm, poor);
    assert_eq!((p.format, p.linear_sample), (TextureFormat::Srgb8a8, true));
}

#[test]
fn texture_levels_take_a_full_chain_and_build_a_short_one() {
    let px = solid(4, 4, 10);
    let given = vec![solid(2, 2, 200), solid(1, 1, 250)];
    let kept = texture_levels(
        &px,
        4,
        4,
        PixelFormat::Rgba8Unorm,
        Some(given.clone()),
        Convert::Plain,
        &srgb,
    )
    .unwrap();
    assert_eq!(kept[0], px);
    assert_eq!(kept[1..].to_vec(), given);
    let built =
        texture_levels(&px, 4, 4, PixelFormat::Rgba8Unorm, None, Convert::Plain, &srgb).unwrap();
    assert_eq!(built.len(), 3);
    assert_eq!(built[2], solid(1, 1, 10));
    let short = vec![0u8; 3];
    assert!(texture_levels(&short, 4, 4, PixelFormat::Rgba8Unorm, None, Convert::Plain, &srgb)
        .is_none());
    let ones: Vec<u8> = 1.0f32.to_ne_bytes().repeat(4);
    let halves = texture_levels(
        &ones,
        1,
        1,
        PixelFormat::Rgba32Float,
        None,
        Convert::SingleToHalf,
        &float,
    )
    .unwrap();
    assert_eq!(halves, vec![0x3c00u16.to_ne_bytes().repeat(4)]);
}

#[test]
fn each_mip_pass_reads_the_level_above() {
    assert_eq!(mip_passes(4), vec![(0, 1), (1, 2), (2, 3)]);
    assert!(mip_passes(1).is_empty());
}

#[test]
fn only_a_frame_that_waited_paces_playback() {
    assert_eq!(presented(true, 500), Presented::Yes { waited: true });
    assert_eq!(presented(true, 499), Presented::Yes { waited: false });
    assert_eq!(presented(false, 9000), Presented::Yes { waited: false });
    assert!(paces_playback(presented(true, 9000), true));
    assert!(!paces_playback(presented(true, 9000), false));
    assert!(!paces_playback(Presented::Skipped, true));
}

#[test]
fn f16_round_numbers() {
    let f16_to_f32 = |h: u16| value(f16_bits_to_f32(h));
    assert_eq!(f16_to_f32(0x3C00), 1.0);
    assert_eq!(f16_to_f32(0x4000), 2.0);
    assert_eq!(f16_to_f32(0x3800), 0.5);
    assert_eq!(f16_to_f32(0x0000), 0.0);
    assert_eq!(f16_to_f32(0xBC00), -1.0);
}
