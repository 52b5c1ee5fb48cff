use fire::icons::{all_icon_list, atlas, downsample, Icon, COUNT};

fn value(s: fire::single::Single) -> f32 {
    f32::from_bits(s.to_bits())
}

fn disc() -> Vec<u8> {
    let mut m = vec![0u8; 64 * 64];
    for y in 0..64i32 {
        for x in 0..64i32 {
            if (x - 32) * (x - 32) + (y - 32) * (y - 32) < 400 {
                m[(y * 64 + x) as usize] = 255;
            }
        }
    }
    m
}

#[test]
fn atlas_is_a_strip_of_square_cells() {
    let masters = vec![disc(); COUNT];
    let (px, w) = atlas(8, &masters);
    assert_eq!(w, 8 * COUNT);
    assert_eq!(px.len(), w * 8 * 4);
    assert!(px.chunks_exact(4).all(|t| t[0] == 255 && t[1] == 255 && t[2] == 255));
    assert!(px.chunks_exact(4).any(|t| t[3] > 0));
}

#[test]
fn icon_order_matches_the_build_script() {
    let stems = [
        "icon_left", "icon_right", "icon_zoom_out", "icon_zoom_in", "icon_fit", "icon_1_1",
        "icon_RGB", "icon_rgba", "icon_R", "icon_G", "icon_B", "icon_A", "icon_aces", "icon_ev+",
        "icon_ev0", "icon_ev-", "icon_B", "icon_W", "icon_G", "icon_C", "icon_outline",
        "icon_open_with", "icon_fullscreen", "icon_flipbook", "icon_play", "icon_pause",
        "icon_more", "icon_octagon",
    ];
    let icons = all_icon_list();
    assert_eq!(icons.len(), COUNT);
    for (i, icon) in icons.iter().enumerate() {
        assert_eq!(icon.index(), i);
        assert_eq!(*icon as usize, i);
        assert_eq!(stems[i], icon.stem());
    }
}

#[test]
fn uvs_tile_the_strip_without_gaps() {
    let (a0, a1) = Icon::Left.uv();
    assert_eq!(value(a0), 0.0);
    let (b0, _) = Icon::Right.uv();
    assert_eq!(value(a1), value(b0));
    let (_, z1) = Icon::Octagon.uv();
    assert_eq!(value(z1), 1.0);
}

#[test]
fn every_edge_is_the_nearest_single() {
    for icon in all_icon_list() {
        let (l, r) = icon.uv();
        assert_eq!(value(l), icon.index() as f32 / COUNT as f32);
        assert_eq!(value(r), (icon.index() + 1) as f32 / COUNT as f32);
    }
}

#[test]
fn downsampling_averages_the_footprint() {
    for n in [1usize, 5, 16, 20, 24, 33, 64, 100] {
        let master: Vec<u8> = (0..64 * 64u32).map(|i| (i * 31 % 251) as u8).collect();
        let scale = 64.0f32 / n as f32;
        let out = downsample(&master, n as u32);
        for ty in 0..n {
            let sy0 = (ty as f32 * scale) as usize;
            let sy1 = (((ty + 1) as f32 * scale).ceil() as usize).clamp(sy0 + 1, 64);
            for tx in 0..n {
                let sx0 = (tx as f32 * scale) as usize;
                let sx1 = (((tx + 1) as f32 * scale).ceil() as usize).clamp(sx0 + 1, 64);
                let mut sum = 0u32;
                for sy in sy0..sy1 {
                    for sx in sx0..sx1 {
                        sum += master[sy * 64 + sx] as u32;
                    }
                }
                let count = ((sy1 - sy0) * (sx1 - sx0)) as u32;
                assert_eq!(out[ty * n + tx] as u32, sum / count, "{n} {tx} {ty}");
            }
        }
    }
}

#[test]
fn each_icon_has_its_own_cell() {
    let mut masters = vec![vec![0u8; 4096]; COUNT];
    masters[Icon::Pause.index()] = vec![200u8; 4096];
    let (px, w) = atlas(4, &masters);
    let x0 = Icon::Pause.index() * 4;
    for y in 0..4 {
        for x in 0..w {
            let a = px[(y * w + x) * 4 + 3];
            assert_eq!(a, if x >= x0 && x < x0 + 4 { 200 } else { 0 });
        }
    }
    assert_eq!(atlas(0, &masters).1, COUNT);
}
