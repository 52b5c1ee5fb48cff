use fire::chip::{
    answer_at, colors, label, layout, left_edge, message_point, ChipAnswer, HintChip,
};
use fire::chord::Platform;
use fire::chrome::{
    rgb, system_accent, system_uses_dark_mode, Action, Palette, ViewSnapshot,
};
use fire::flipbook::Grid;
use fire::icons::Icon;
use fire::image::{ImageInfo, PixelFormat};
use fire::instance::{
    budget, connect_retry, forward_plan, is_taken, launch_step, socket_place, BindError,
    ConnectError, ForwardPlan, LaunchEvent, LaunchStep, Retry, SocketPlace,
};
use fire::keybinds::{KeyAction, Keybinds};
use fire::menubar::{accelerator_for, action_for, items, text_of_item, MenuItem, MenuKind};
use fire::openfiles::{first_open, Hook};
use fire::platform::{
    copy_file_plan, file_list_bytes, launcher_show, reveal_command, ui_font_path, CopyPlan,
    LaunchShow,
};
use fire::pool::{wants_detection, worker_count, Backlog, Generations};
use fire::shade::{bands, pack, passthrough};
use fire::status::{
    decimal, failure, file_name, format_meta, human_size, status_left, status_right, title, Failure,
    StatusRight, TitleState,
};
use fire::text::{fold_ascii, is_blank, is_white_space, same_folded};
use fire::utf16::{decode, wide};
use fire::view::{Background, Channel, Tonemap};
use winit::keyboard::KeyCode;

#[test]
fn white_space_is_what_unicode_says() {
    for c in '\0'..=char::MAX {
        assert_eq!(is_white_space(c), c.is_whitespace(), "{c:?}");
        assert_eq!(fold_ascii(c), c.to_ascii_lowercase());
    }
    assert!(is_blank(" \t\u{2003}"));
    assert!(!is_blank(" x "));
    assert!(same_folded("ÀbC", "ÀBc"));
    assert!(!same_folded("À", "à"));
}

#[test]
fn numbers_and_sizes_read_as_formatted() {
    for n in [0u64, 1, 9, 10, 1023, u64::MAX] {
        assert_eq!(decimal(n), n.to_string());
    }
    let gb = 1u64 << 30;
    let mb = 1u64 << 20;
    let mut cases = vec![0, 1, 1023, 1024, 1535, 1536, 1537, 2560, mb - 1, mb, gb - 1, gb];
    for k in 0..400u64 {
        cases.push(mb + k * 52429);
        cases.push(mb + k * (mb / 20));
        cases.push(gb + k * (gb / 20));
        cases.push(1024 + k * 512);
        cases.push(gb * 1000 + k * 12_345_678_901);
    }
    for b in cases {
        let expect = if b >= gb {
            format!("{:.1} GB", b as f64 / gb as f64)
        } else if b >= mb {
            format!("{:.1} MB", b as f64 / mb as f64)
        } else if b >= 1024 {
            format!("{:.0} KB", b as f64 / 1024.0)
        } else {
            format!("{b} B")
        };
        assert_eq!(human_size(b), expect, "{b}");
    }
}

fn info() -> ImageInfo {
    ImageInfo {
        width: 640,
        height: 480,
        format: PixelFormat::Rgba8Unorm,
        bit_depth: 8,
        channels: 4,
        alpha_opaque: true,
        source_format: "PNG".to_string(),
        downscaled_from: None,
        frame_delays: None,
    }
}

#[test]
fn metadata_is_one_line() {
    assert_eq!(format_meta(&info(), false, None), "PNG   640×480   8-bit RGBA");
    let mut i = info();
    i.channels = 1;
    i.downscaled_from = Some((20000, 10000));
    assert_eq!(
        format_meta(&i, true, Some(1536)),
        "PNG   640×480   8-bit Gray   2 KB   ICC   (from 20000×10000)"
    );
    i.channels = 2;
    assert!(format_meta(&i, false, None).contains("Gray+A"));
    i.channels = 3;
    assert!(format_meta(&i, false, None).contains("8-bit RGB  "));
    i.channels = 7;
    assert!(format_meta(&i, false, None).contains("8-bit ·"));
}

#[test]
fn a_failure_is_told_from_an_empty_window() {
    assert_eq!(status_left("a.png", "", true, false), "a.png — loading…");
    assert_eq!(status_left("", "", false, false), "No image");
    assert_eq!(status_left("a.png", "", false, true), "a.png");
    assert_eq!(status_left("a.png", "corrupt", false, false), "a.png   ·   corrupt");
    assert_eq!(title("Fire", "a.png", TitleState::Loading), "Fire: a.png (loading…)");
    assert_eq!(title("Fire", "a.png", TitleState::Shown), "Fire: a.png");
    assert_eq!(title("Fire", "a.png", TitleState::Failed), "Fire: a.png (failed)");
    assert_eq!(file_name("/tmp/x/a.png"), "a.png");
    assert_eq!(failure(Failure::Decode, "bad magic"), "failed: bad magic");
    assert_eq!(failure(Failure::Upload, "too big"), "failed: GPU upload (too big)");
    assert_eq!(file_name("/"), "image");
}

#[test]
fn the_right_side_has_position_mip_and_zoom() {
    let mut r = StatusRight {
        folder: Some((3, 17)),
        image: Some((256, 128)),
        mip_level: 2,
        mip_count: 9,
        is_hdr: false,
        zoom_percent: 150,
    };
    assert_eq!(status_right(r, "+1.00"), "3 / 17    mip 2/8  64×32    150%");
    r.mip_count = 1;
    assert_eq!(status_right(r, "+1.00"), "3 / 17    150%");
    r.image = None;
    assert_eq!(status_right(r, "+1.00"), "3 / 17");
    r.folder = None;
    assert_eq!(status_right(r, "+1.00"), "");
}

#[test]
fn wide_text_reads_back() {
    for s in ["", "plain", "Größe ✕ \u{1f525}", "\u{10ffff}\u{e000}"] {
        let w = wide(s);
        let expect: Vec<u16> = s.encode_utf16().chain(std::iter::once(0)).collect();
        assert_eq!(w, expect);
        assert_eq!(decode(&w), s);
    }
    let lone = vec![0x41, 0xd800, 0x42, 0xdc00, 0, 0x43];
    assert_eq!(decode(&lone), String::from_utf16_lossy(&lone[..4]));
    assert_eq!(decode(&vec![0xd83d, 0xdd25]), "\u{1f525}");
}

#[test]
fn the_chip_answers_where_it_was_hit() {
    assert_eq!(label(Grid::new(8, 4)), "Looks like a 8\u{d7}4 flipbook");
    let l = layout(96, 120, 16, 90);
    assert_eq!((l.width, l.height), (10 + 120 + 10 + 106 + 10 + 22 + 10, 36));
    assert_eq!((l.button.left, l.button.right, l.button.top, l.button.bottom), (140, 246, 7, 29));
    assert_eq!((l.close.left, l.close.right), (256, 278));
    assert_eq!(answer_at(l, 140, 7), Some(ChipAnswer::Accept));
    assert_eq!(answer_at(l, 246, 7), None);
    assert_eq!(answer_at(l, 256, 10), Some(ChipAnswer::Dismiss));
    assert_eq!(answer_at(l, 0, 0), None);
    assert_eq!(left_edge(500, 301), 350);
    assert_eq!(message_point(0xfffb_0007), (7, -5));
}

#[test]
fn the_chip_follows_its_window() {
    let mut c = HintChip::new(96, false);
    assert_eq!(c.colors, colors(false));
    c.show();
    assert!(c.visible);
    assert!(!c.set_dpi(96));
    assert!(c.visible);
    assert!(c.set_dpi(144));
    assert!(!c.visible);
    assert!(!c.set_dark(true));
    assert_eq!(c.colors, colors(true));
    c.show();
    assert!(c.set_dark(false));
    assert!(c.conceal());
    assert!(!c.conceal());
}

fn snapshot() -> ViewSnapshot {
    ViewSnapshot {
        channel: Channel::Rgb,
        fit: true,
        tonemap: Tonemap::Aces,
        is_hdr: false,
        has_image: true,
        loading: false,
        has_alpha: true,
        background: Background::Grey,
        outline: false,
        octagon: None,
        can_navigate: false,
        fullscreen: false,
        flipbook: false,
        has_animation: true,
        mip_level: 0,
        mip_count: 1,
        shortcuts: Keybinds::defaults().labels(Platform::Other),
        status_left: String::new(),
        status_right: String::new(),
    }
}

#[test]
fn buttons_follow_the_state() {
    let s = snapshot();
    assert!(!s.enabled(Action::Prev));
    assert!(s.enabled(Action::ZoomIn));
    assert!(!s.enabled(Action::ExpUp));
    assert!(!s.enabled(Action::ToggleFlipbook));
    assert!(s.enabled(Action::OpenSettings));
    assert!(!s.shows_logo());
    let lit: Vec<Channel> = [Channel::Rgb, Channel::R, Channel::G, Channel::B, Channel::A]
        .into_iter()
        .filter(|c| s.active(Action::Channel(*c)))
        .collect();
    assert_eq!(lit, vec![Channel::Rgb]);
    assert!(s.active(Action::ToggleTonemap));
    assert!(s.active(Action::Background(Background::Grey)));
    assert!(!s.active(Action::Background(Background::Black)));
    assert_eq!(s.tooltip(Action::ZoomToggle), "Actual size 1:1  (1)");
    assert_eq!(s.tooltip(Action::Prev), "Previous image  (\u{2190})");
    assert_eq!(s.tooltip(Action::ExpReset), "Reset exposure");
    assert_eq!(s.tooltip(Action::ToggleTonemap), "Tone map: Reinhard \u{2194} ACES  (T)");
    assert_eq!(s.icon(Action::ZoomToggle), Some(Icon::OneToOne));
    assert_eq!(s.icon(Action::Channel(Channel::Rgb)), Some(Icon::Rgba));
    assert_eq!(s.icon(Action::OpenSettings), None);
}

#[test]
fn colors_are_packed_with_blue_on_top() {
    assert_eq!(rgb(1, 2, 3), 0x03_02_01);
    assert_eq!(system_accent(0x123456, true), 0x123456);
    assert_eq!(system_accent(0, false), rgb(0, 120, 215));
    let dark = Palette::for_mode(true, rgb(9, 8, 7));
    let light = Palette::for_mode(false, rgb(9, 8, 7));
    assert_ne!(dark.text, light.text);
    let c = dark.view_clear;
    assert_eq!(
        dark.view_clear_packed(),
        (c & 0xff) << 16 | c & 0xff00 | (c >> 16) & 0xff
    );
    assert!(system_uses_dark_mode(Some(0)));
    assert!(!system_uses_dark_mode(Some(1)));
    assert!(!system_uses_dark_mode(None));
    assert_eq!(pack(1, 2, 3), 0x01_02_03);
    assert_eq!(passthrough(Channel::Rgb, 1, 2, 3, 255), Some(0x01_02_03));
    assert_eq!(passthrough(Channel::Rgba, 1, 2, 3, 4), None);
}

#[test]
fn bands_cover_the_frame() {
    for (w, h, n) in [(640u32, 481u32, 7usize), (3, 2, 16), (1, 1, 1), (1920, 1080, 1)] {
        let mut at = 0;
        for (first, rows) in bands(w, h, n) {
            assert_eq!(first, at);
            assert!(rows > 0);
            at += rows;
        }
        assert_eq!(at, h);
    }
    assert!(bands(10, 0, 4).is_empty());
}

#[test]
fn connecting_ends_within_its_budget() {
    assert_eq!(budget(ConnectError::NotFound, 2000), 2000);
    assert_eq!(budget(ConnectError::PipeBusy, 2000), 2000);
    assert_eq!(budget(ConnectError::Refused, 2000), 150);
    assert_eq!(budget(ConnectError::Refused, 100), 100);
    assert_eq!(budget(ConnectError::Other, 2000), 0);
    assert_eq!(connect_retry(ConnectError::NotFound, 1999, 2000), Retry::After(25));
    assert_eq!(connect_retry(ConnectError::NotFound, 2000, 2000), Retry::GiveUp);
    assert_eq!(connect_retry(ConnectError::Refused, 150, 2000), Retry::GiveUp);
    assert_eq!(connect_retry(ConnectError::Other, 0, 2000), Retry::GiveUp);
}

#[test]
fn a_second_launch_forwards_or_takes_over() {
    assert!(is_taken(BindError::AddrInUse));
    assert!(is_taken(BindError::PermissionDenied));
    assert!(!is_taken(BindError::Other));
    assert_eq!(launch_step(LaunchEvent::Bound), LaunchStep::Serve);
    assert_eq!(launch_step(LaunchEvent::BindFailed(BindError::AddrInUse)), LaunchStep::Forward);
    assert_eq!(launch_step(LaunchEvent::BindFailed(BindError::Other)), LaunchStep::RunAlone);
    assert_eq!(launch_step(LaunchEvent::Forwarded), LaunchStep::Exit);
    assert_eq!(launch_step(LaunchEvent::ForwardFailed), LaunchStep::Reclaim);
    assert_eq!(launch_step(LaunchEvent::Reclaimed), LaunchStep::Serve);
    assert_eq!(launch_step(LaunchEvent::ReclaimFailed), LaunchStep::RunAlone);
    assert_eq!(forward_plan(false, true), ForwardPlan::Probe);
    assert_eq!(forward_plan(true, true), ForwardPlan::Send { grant_foreground: true });
    assert_eq!(socket_place(true, false, true, true), SocketPlace::Kernel);
    assert_eq!(socket_place(false, false, true, true), SocketPlace::RuntimeDir);
    assert_eq!(socket_place(true, true, true, true), SocketPlace::RuntimeDir);
    assert_eq!(socket_place(false, false, false, true), SocketPlace::CacheDir);
    assert_eq!(socket_place(false, false, false, false), SocketPlace::TempDir);
}

#[test]
fn each_system_reveals_a_file_its_own_way() {
    let (program, args) = reveal_command(Platform::Windows, r"C:\a b.png");
    assert_eq!((program, args), ("explorer.exe", vec![r#"/select,"C:\a b.png""#.to_string()]));
    let (program, args) = reveal_command(Platform::Mac, "/a/b.png");
    assert_eq!((program, args), ("open", vec!["-R".to_string(), "/a/b.png".to_string()]));
    let (program, args) = reveal_command(Platform::Other, "/a/b.png");
    assert_eq!((program, args), ("xdg-open", vec!["/a".to_string()]));
    let (_, args) = reveal_command(Platform::Other, "/");
    assert_eq!(args, vec!["/".to_string()]);
    assert_eq!(ui_font_path(Platform::Windows), Some(r"C:\Windows\Fonts\segoeui.ttf"));
    assert_eq!(ui_font_path(Platform::Mac), Some("/System/Library/Fonts/SFNS.ttf"));
    assert_eq!(ui_font_path(Platform::Other), None);
    assert_eq!(copy_file_plan(Platform::Windows), CopyPlan::FileList);
    assert_eq!(copy_file_plan(Platform::Mac), CopyPlan::FileReference);
    assert_eq!(copy_file_plan(Platform::Other), CopyPlan::PathText);
    assert_eq!(file_list_bytes(20, 11), 20 + 24);
}

#[test]
fn the_launcher_may_ask_for_a_window_state() {
    assert_eq!(launcher_show(Platform::Windows, 1, 3), Some(LaunchShow::Maximized));
    for minimized in [2, 6, 7, 11] {
        assert_eq!(launcher_show(Platform::Windows, 1, minimized), Some(LaunchShow::Minimized));
    }
    assert_eq!(launcher_show(Platform::Windows, 0x101, 1), Some(LaunchShow::Normal));
    assert_eq!(launcher_show(Platform::Windows, 0x100, 3), None);
    assert_eq!(launcher_show(Platform::Other, 1, 3), None);
}

#[test]
fn the_menu_bar_names_its_commands() {
    let app = items(MenuKind::Application);
    assert!(app.contains(&MenuItem::Quit));
    assert_eq!(items(MenuKind::File)[0], MenuItem::Open);
    assert_eq!(text_of_item(MenuItem::About, "Fire"), Some("About Fire".to_string()));
    assert_eq!(text_of_item(MenuItem::Separator, "Fire"), None);
    assert_eq!(action_for("fire.open"), Some(KeyAction::OpenFile));
    assert_eq!(action_for("fire.close"), Some(KeyAction::CloseImage));
    assert_eq!(action_for("quit"), None);
    let mut binds = Keybinds::defaults();
    let a = accelerator_for(&binds, KeyAction::OpenFile).unwrap();
    assert!(a.command && !a.shift && !a.option && a.key == KeyCode::KeyO);
    binds.unbind(KeyAction::OpenFile);
    assert!(accelerator_for(&binds, KeyAction::OpenFile).is_none());
}

#[test]
fn no_file_handed_over_is_lost() {
    let mut h = Hook::new();
    assert_eq!(h.deliver("early.png".into()), None);
    h.connect();
    assert_eq!(h.deliver("later.png".into()), None);
    let waiting = h.start();
    assert_eq!(waiting, vec!["early.png", "later.png"]);
    assert_eq!(h.deliver("live.png".into()), Some("live.png".into()));
    assert_eq!(
        first_open(false, waiting.clone()),
        (Some("early.png".into()), vec!["later.png".to_string()])
    );
    assert_eq!(first_open(true, waiting.clone()), (None, waiting));
    assert_eq!(first_open(false, vec![]), (None, vec![]));
}

#[test]
fn another_windows_job_overtakes_nothing() {
    let mut b = Backlog::new();
    assert!(!b.is_superseded(Some(1), 0));
    b.submit(None, 1);
    b.submit(Some(1), 2);
    b.submit(Some(2), 3);
    assert!(!b.is_superseded(None, 1));
    assert!(!b.is_superseded(Some(1), 2));
    assert!(!b.is_superseded(Some(2), 3));
    b.submit(Some(1), 4);
    assert!(b.is_superseded(Some(1), 2));
    assert!(!b.is_superseded(Some(2), 3));
    b.submit(Some(1), 2);
    assert!(b.is_superseded(Some(1), 3));
    assert!(!b.is_superseded(Some(1), 4));
}

#[test]
fn only_the_newest_job_is_decoded() {
    let mut g = Generations::new();
    let mut b = Backlog::new();
    let first = g.fresh_generation();
    let second = g.fresh_generation();
    assert!(second > first);
    b.submit(Some(1), first);
    assert!(!b.is_superseded(Some(1), first));
    b.submit(Some(1), second);
    assert!(b.is_superseded(Some(1), first));
    assert!(!b.is_superseded(Some(1), second));
    assert!(wants_detection(true, true, false));
    assert!(!wants_detection(true, true, true));
    assert!(!wants_detection(false, true, false));
    assert!(!wants_detection(true, false, false));
    assert_eq!(worker_count(None), 1);
    assert_eq!(worker_count(Some(64)), 4);
    assert_eq!(worker_count(Some(3)), 3);
}

#[test]
fn opaque_rgb_magnify_is_passthrough() {
    let pixels = [
        10, 20, 30, 255, 40, 50, 60, 255, //
        70, 80, 90, 255, 100, 110, 120, 255,
    ];
    for t in pixels.chunks_exact(4) {
        assert_eq!(passthrough(Channel::Rgb, t[0], t[1], t[2], t[3]), Some(pack(t[0], t[1], t[2])));
    }
    assert_eq!(passthrough(Channel::Rgb, 10, 20, 30, 255), Some(pack(10, 20, 30)));
}

#[test]
fn solo_alpha_shows_coverage_gray() {
    assert_eq!(passthrough(Channel::A, 255, 0, 0, 128), Some(pack(128, 128, 128)));
}
