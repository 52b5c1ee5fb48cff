use fire::chord::KeyChord;
use fire::config::{
    entry_at, BackgroundCfg, Config, FitCfg, FlipbookCfg, InstanceMode, KeyValue, KeybindsCfg,
    MenuEntry, OctagonCfg, TonemapCfg,
};
use fire::keybinds::KeyAction;
use fire::octagon::{line_color_list, LineColor, OctagonState};
use fire::scene::{Picture, Scene};
use fire::settings::{apply_view_config, capture_octagon, persist_octagon, watch_change, WatchChange};
use fire::single::Single;
use fire::view::{Background, Tonemap};
use fire::viewer::Viewer;
use winit::keyboard::KeyCode;

fn num(v: f32) -> Single {
    Single::from_bits(v.to_bits())
}

fn value(s: Single) -> f32 {
    f32::from_bits(s.to_bits())
}

fn leaf(name: &str, path: &str, args: &[&str]) -> MenuEntry {
    MenuEntry {
        name: name.to_string(),
        path: Some(path.to_string()),
        args: args.iter().map(|s| s.to_string()).collect(),
        items: vec![],
    }
}

fn branch(name: &str, items: Vec<MenuEntry>) -> MenuEntry {
    MenuEntry { name: name.to_string(), path: None, args: vec![], items }
}

#[test]
fn open_with_leaf_back_compat() {
    let open_with = vec![leaf("Photoshop", r"C:\ps.exe", &["{path}"])];
    assert_eq!(open_with.len(), 1);
    let e = &open_with[0];
    assert!(!e.is_submenu());
    assert_eq!(e.path.as_deref(), Some(r"C:\ps.exe"));
    assert_eq!(e.resolved_args(r"D:\img.png"), vec![r"D:\img.png"]);
}

#[test]
fn open_with_nested_submenus() {
    let open_with = vec![branch(
        "ImageMagick",
        vec![branch(
            "Convert",
            vec![
                leaf("JPG", r"C:\magick.exe", &["{path}", "{path}.jpg"]),
                leaf("PNG", r"C:\magick.exe", &[]),
            ],
        )],
    )];
    let im = &open_with[0];
    assert!(im.is_submenu());
    assert_eq!(im.items.len(), 1);
    let convert = &im.items[0];
    assert!(convert.is_submenu());
    assert_eq!(convert.items.len(), 2);
    let jpg = &convert.items[0];
    assert!(!jpg.is_submenu());
    assert_eq!(jpg.resolved_args(r"D:\a.tga"), vec![r"D:\a.tga", r"D:\a.tga.jpg"]);
    assert_eq!(convert.items[1].resolved_args(r"D:\a.tga"), vec![r"D:\a.tga"]);

    assert_eq!(entry_at(&open_with, &[0]).unwrap().name, "ImageMagick");
    assert_eq!(entry_at(&open_with, &[0, 0]).unwrap().name, "Convert");
    assert_eq!(entry_at(&open_with, &[0, 0, 1]).unwrap().name, "PNG");
    assert!(entry_at(&open_with, &[]).is_none());
    assert!(entry_at(&open_with, &[1]).is_none());
    assert!(entry_at(&open_with, &[0, 0, 2]).is_none());
    assert!(entry_at(&open_with, &[0, 9, 0]).is_none());
}

#[test]
fn sanitize_clamps_numbers() {
    let mut cfg = Config::default();
    cfg.zoom_step = num(100.0);
    cfg.exposure_step = num(0.0);
    cfg.flipbook.fps = num(1e9);
    cfg.sanitize();
    assert_eq!(value(cfg.zoom_step), 4.0);
    assert_eq!(value(cfg.exposure_step), 0.01);
    assert_eq!(value(cfg.flipbook.fps), 120.0);

    let mut nan = Config::default();
    nan.zoom_step = num(f32::NAN);
    nan.exposure_step = num(f32::INFINITY);
    nan.sanitize();
    assert_eq!(value(nan.zoom_step), 1.15);
    assert_eq!(value(nan.exposure_step), 0.25);
}

#[test]
fn state_clamps_out_of_range_and_nan() {
    let mut s = OctagonState {
        enabled: true,
        color: LineColor::Blue,
        line_opacity: num(7.0),
        crop: num(3.0),
        hide: num(-1.0),
    };
    s.clamp();
    assert_eq!(value(s.crop), 0.5);
    assert_eq!(value(s.hide), 0.0);
    assert_eq!(value(s.line_opacity), 1.0);
    s.crop = num(f32::NAN);
    s.hide = num(f32::INFINITY);
    s.line_opacity = num(f32::NAN);
    s.clamp();
    assert_eq!(s.crop, OctagonState::default().crop);
    assert_eq!(value(s.hide), 0.0);
    assert_eq!(value(s.line_opacity), 1.0);
}

#[test]
fn defaults_are_the_documented_ones() {
    let cfg = Config::loaded(None);
    assert_eq!(cfg.instance_mode, InstanceMode::NewWindow);
    assert!(cfg.hot_reload && cfg.fit_upscale);
    assert_eq!(value(cfg.zoom_step), 1.15);
    assert_eq!(value(cfg.exposure_step), 0.25);
    assert_eq!(cfg.default_tonemap, TonemapCfg::Reinhard);
    assert_eq!(cfg.default_fit, FitCfg::Fit);
    assert_eq!(cfg.background, BackgroundCfg::Auto);
    assert_eq!(cfg.flipbook, FlipbookCfg::default());
    assert_eq!(value(cfg.flipbook.fps), 24.0);
    assert!(cfg.open_with.is_empty());
    assert!(cfg.keybinds.is_empty());
}

#[test]
fn a_read_configuration_is_brought_into_range() {
    let mut read = Config::default();
    read.zoom_step = num(-1.0);
    read.instance_mode = InstanceMode::SingleInstance;
    let cfg = Config::loaded(Some(read));
    assert_eq!(cfg.instance_mode, InstanceMode::SingleInstance);
    assert!(value(cfg.zoom_step) > 1.0);
    let again = Config::loaded(Some(cfg));
    assert!(value(again.zoom_step) > 1.0);
}

#[test]
fn overlay_starts_off_and_as_remembered() {
    let c = OctagonCfg {
        remember: true,
        color: LineColor::Blue,
        line_opacity: num(0.5),
        crop: num(0.3),
        hide: num(0.75),
    };
    let s = c.initial_state();
    assert!(!s.enabled);
    assert_eq!(s.color, LineColor::Blue);
    assert_eq!(value(s.crop), 0.3);
    let off = OctagonCfg { remember: false, ..c };
    assert_eq!(off.initial_state(), OctagonState::default());
}

#[test]
fn overlay_options_are_captured_without_the_toggle() {
    let mut c = OctagonCfg::default();
    let mut s = OctagonState::default();
    s.enabled = true;
    assert!(!capture_octagon(&mut c, s));
    s.hide = num(0.5);
    assert!(!persist_octagon(&mut c, s));
    assert_eq!(value(c.hide), 0.0);
    c.remember = true;
    assert!(persist_octagon(&mut c, s));
    assert_eq!(value(c.hide), 0.5);
    assert!(!persist_octagon(&mut c, s));
    assert_eq!(c.initial_state(), OctagonState { enabled: false, ..s });
    s.hide = num(-0.0);
    c.hide = num(0.0);
    assert!(!persist_octagon(&mut c, s));
}

#[test]
fn settings_change_the_backdrop_but_not_the_image() {
    let picture = Picture {
        width: 4,
        height: 4,
        format: fire::image::PixelFormat::Rgba8Unorm,
        channels: 4,
        alpha_opaque: false,
    };
    let mut scene = Scene::new(true);
    scene.set_image(picture, true);
    assert_eq!(scene.prefs.background, Background::Checker);
    let mut cfg = Config::default();
    cfg.background = BackgroundCfg::Grey;
    cfg.default_tonemap = TonemapCfg::Aces;
    cfg.default_fit = FitCfg::ActualSize;
    let before = scene;
    apply_view_config(&mut scene, &cfg);
    assert_eq!(scene.prefs.background, Background::Grey);
    assert_eq!(scene.prefs.default_tonemap, Tonemap::Aces);
    assert!(scene.prefs.open_actual_size);
    assert_eq!(scene.display, before.display);
    assert_eq!(scene.shown, before.shown);
    cfg.background = BackgroundCfg::Auto;
    apply_view_config(&mut scene, &cfg);
    assert_eq!(scene.prefs.background, Background::Checker);
}

#[test]
fn committed_settings_take_the_live_overlay() {
    let mut v = Viewer::new(1, true);
    v.scene.prefs.octagon.crop = num(0.125);
    let was = Config::default();
    let mut new = Config::default();
    new.hot_reload = false;
    new.octagon.remember = true;
    new.background = BackgroundCfg::White;
    new.keybinds.insert("fit".into(), KeyValue::One("Q".into()));
    let adopted = v.apply_settings(&was, &mut new);
    assert_eq!(adopted.watch, WatchChange::Stop);
    assert_eq!(value(new.octagon.crop), 0.125);
    assert_eq!(v.scene.prefs.background, Background::White);
    assert_eq!(
        adopted.binds.lookup(KeyChord::plain(KeyCode::KeyQ), false),
        Some(KeyAction::Fit)
    );
    let again = v.adopt_settings(&new, &Config::default());
    assert_eq!(again.watch, WatchChange::Start);
}

#[test]
fn watch_follows_the_setting() {
    assert_eq!(watch_change(true, true), WatchChange::Keep);
    assert_eq!(watch_change(false, true), WatchChange::Start);
    assert_eq!(watch_change(true, false), WatchChange::Stop);
}

#[test]
fn stored_bindings_hold_one_value_per_name() {
    let mut cfg = KeybindsCfg::new();
    cfg.insert("fit".into(), KeyValue::One("F".into()));
    cfg.insert("fit".into(), KeyValue::One("G".into()));
    assert_eq!(cfg.len(), 1);
    assert_eq!(cfg.get("fit"), Some(&KeyValue::One("G".into())));
    assert_eq!(cfg.get("zoom-in"), None);
    assert_eq!(cfg.names(), vec!["fit".to_string()]);
    for name in ["zoom-in", "fi", "zoom", "\u{e9}t\u{e9}", "Fit", "", "fit", "fit-all"] {
        cfg.insert(name.into(), KeyValue::One("H".into()));
    }
    let mut sorted: Vec<String> = cfg.names();
    sorted.sort();
    assert_eq!(cfg.names(), sorted);
    assert_eq!(
        cfg.names(),
        vec!["", "Fit", "fi", "fit", "fit-all", "zoom", "zoom-in", "\u{e9}t\u{e9}"]
    );
    assert_eq!(cfg.len(), 8);
    assert_eq!(cfg.get("fit"), Some(&KeyValue::One("H".into())));
    assert_eq!(KeyValue::Many(vec!["a".into(), "b".into()]).as_strings(), vec!["a", "b"]);
    assert_eq!(KeyValue::One("a".into()).as_strings(), vec!["a"]);
}

#[test]
fn line_colors_are_opaque_and_named() {
    for c in line_color_list() {
        assert_eq!(f32::from_bits(c.rgba().3), 1.0);
        assert!(!c.label().is_empty());
    }
}
