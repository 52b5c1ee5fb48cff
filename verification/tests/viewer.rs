use fire::chord::Platform;
use fire::config::FlipbookCfg;
use fire::dispatch::Wants;
use fire::flipbook::{Grid, PerPath};
use fire::image::PixelFormat;
use fire::keybinds::{KeyAction, Keybinds, ShortcutLabels};
use fire::playback::TransportEdit;
use fire::routing::{Dest, Event, Held, SettingsKey};
use fire::scene::{default_background, Drag, Framing, Picture, Scene};
use fire::shell::{FolderScan, Initial};
use fire::single::Single;
use fire::timers::{TimerKind, TimerQueue};
use fire::view::{Background, Channel, Tonemap};
use fire::viewer::{Dialog, DialogOrder, Look, Verdict, Viewer};
use winit::keyboard::KeyCode;

fn num(v: f32) -> Single {
    Single::from_bits(v.to_bits())
}

fn value(s: Single) -> f32 {
    f32::from_bits(s.to_bits())
}

fn picture(width: u32, height: u32) -> Picture {
    Picture {
        width,
        height,
        format: PixelFormat::Rgba8Unorm,
        channels: 4,
        alpha_opaque: true,
    }
}

fn land(v: &mut Viewer, q: &mut TimerQueue, path: &str, delays: Option<Vec<u32>>, now: u64) {
    v.decode_landed(path, picture(128, 64), delays, "meta".to_string(), false, false, q, now);
}

fn shown(path: &str, q: &mut TimerQueue) -> Viewer {
    let mut v = Viewer::new(1, true);
    v.open(path, 1);
    land(&mut v, q, path, None, 0);
    v
}

#[test]
fn a_newer_request_wins() {
    let mut v = Viewer::new(1, true);
    v.open("a.png", 1);
    v.open("b.png", 2);
    assert_eq!(v.decode_verdict(1, 10, 10, false), Verdict::Stale);
    assert_eq!(v.decode_verdict(2, 10, 10, false), Verdict::Fresh);
    assert_eq!(v.label, "b.png");
    assert!(v.loading);
    assert_eq!(v.current.as_deref(), Some("b.png"));
}

#[test]
fn a_reload_keeps_the_view_only_for_the_same_size() {
    let mut q = TimerQueue::new();
    let mut v = shown("a.png", &mut q);
    assert_eq!(v.decode_verdict(1, 128, 64, true), Verdict::KeepView);
    assert_eq!(v.decode_verdict(1, 128, 65, true), Verdict::Fresh);
    assert_eq!(v.decode_verdict(1, 128, 64, false), Verdict::Fresh);
    assert_eq!(v.reload(1, 2), Some("a.png".to_string()));
    assert_eq!(v.reload(1, 3), None);
    assert_eq!(v.scene.generation, 2);
}

#[test]
fn the_shown_image_stays_while_the_next_one_loads() {
    let mut q = TimerQueue::new();
    let mut v = shown("a.png", &mut q);
    v.open("b.png", 2);
    assert_eq!(v.shown.as_deref(), Some("a.png"));
    assert_eq!(v.scene.shown, Some(picture(128, 64)));
    assert!(v.loading);
}

#[test]
fn closing_is_final_until_the_next_open() {
    let mut q = TimerQueue::new();
    let mut v = shown("a.png", &mut q);
    assert!(v.close_image(5));
    assert!(v.empty_view_active());
    assert_eq!(v.decode_verdict(1, 10, 10, false), Verdict::Stale);
    assert_eq!((v.shown.clone(), v.current.clone(), v.loading), (None, None, false));
    assert!(!v.close_image(6));
}

#[test]
fn a_failure_shows_its_reason() {
    let mut q = TimerQueue::new();
    let mut v = shown("/pics/a.png", &mut q);
    v.open("/pics/bad.png", 2);
    v.fail_load("/pics/bad.png", "unexpected end of file".to_string());
    assert_eq!((v.label.as_str(), v.meta.as_str()), ("bad.png", "unexpected end of file"));
    assert_eq!(v.scene.shown, None);
    let look = Look { fit: true, fullscreen: false, zoom_percent: 100, mip_level: 0, mip_count: 1 };
    let s = v.snapshot(ShortcutLabels::none(), look, "+0.00");
    assert_eq!(s.status_left, "bad.png   ·   unexpected end of file");
    assert!(!s.has_image);
}

#[test]
fn the_snapshot_carries_the_overlay_while_it_is_on() {
    let mut q = TimerQueue::new();
    let mut v = shown("/pics/a.png", &mut q);
    let look = Look { fit: true, fullscreen: false, zoom_percent: 50, mip_level: 2, mip_count: 7 };
    let s = v.snapshot(ShortcutLabels::none(), look, "+0.00");
    assert_eq!((s.octagon, s.mip_level, s.mip_count), (None, 2, 7));
    v.scene.toggle_octagon();
    let s = v.snapshot(ShortcutLabels::none(), look, "+0.00");
    assert_eq!(s.octagon, Some(v.scene.prefs.octagon));
    v.close_image(2);
    let s = v.snapshot(ShortcutLabels::none(), look, "+0.00");
    assert_eq!(s.octagon, None);
}

#[test]
fn paging_there_and_back_undoes() {
    let mut v = Viewer::new(1, true);
    v.open("/p/b.png", 1);
    assert_eq!(v.navigate(1, 2), None);
    v.folder_scanned(FolderScan {
        path: "/p/b.png".to_string(),
        entries: vec!["/p/a.png".into(), "/p/b.png".into(), "/p/c.png".into()],
    });
    assert_eq!(v.navigate(1, 2), Some("/p/c.png".to_string()));
    assert_eq!(v.navigate(1, 3), Some("/p/a.png".to_string()));
    assert_eq!(v.navigate(-1, 4), Some("/p/c.png".to_string()));
    assert_eq!(v.navigate(-1, 5), Some("/p/b.png".to_string()));
    v.folder_scanned(FolderScan { path: "/old.png".to_string(), entries: vec![] });
    assert_eq!(v.navigate(1, 6), Some("/p/c.png".to_string()));
}

#[test]
fn the_first_image_is_adopted_as_loading() {
    let mut v = Viewer::new(3, true);
    v.adopt_initial(&Initial { path: "/p/a.png".to_string(), generation: 9 });
    assert_eq!((v.label.as_str(), v.loading, v.scene.generation), ("a.png", true, 9));
}

#[test]
fn an_animation_runs_on_its_own_timer() {
    let mut q = TimerQueue::new();
    let mut v = Viewer::new(1, true);
    v.open("a.gif", 1);
    land(&mut v, &mut q, "a.gif", Some(vec![40, 70]), 1000);
    assert_eq!(q.next_deadline(), Some(1040));
    let due = q.pop_due(1040);
    assert_eq!((due[0].0, due[0].1), (1, TimerKind::Anim));
    assert!(v.on_timer(TimerKind::Anim, due[0].2, &mut q, 1040) || v.anim_is_due(1040));
    v.tick_animation(true, &mut q, 1040);
    assert_eq!(v.anim.delay_ms(), Some(70));
    assert!(!v.anim_is_due(1040));
    v.close_image(2);
    assert_eq!(v.awaited.anim, None);
}

#[test]
fn a_sheet_is_offered_and_then_played() {
    let mut q = TimerQueue::new();
    let mut v = shown("a.png", &mut q);
    v.flipbook_guess_done(1, "a.png", Some(Grid::new(4, 2)), &mut q, 0);
    assert_eq!(v.chip_hint(), Some(Grid::new(4, 2)));
    assert!(!v.transport_visible(false));
    v.toggle_flipbook(FlipbookCfg::default(), &mut q, 0);
    assert_eq!(v.chip_hint(), None);
    assert!(v.transport_visible(false));
    assert!(!v.transport_visible(true));
    assert!(v.flipbook_playing());
    assert_eq!(v.scene.view_dims(), Some((32, 32)));
    v.flipbook_step(1, &mut q, 10);
    assert!(!v.flipbook_playing());
    assert_eq!(value(v.flipbook_state().unwrap().frame_pos), 1.0);
    v.apply_transport_edit(TransportEdit::SetCols(8), &mut q, 10);
    assert_eq!(v.flipbook_state().unwrap().frame_count, 16);
    v.close_image(2);
    assert_eq!(v.flipbook_state(), None);
    v.open("a.png", 3);
    land(&mut v, &mut q, "a.png", None, 20);
    assert_eq!(v.flipbook_state().unwrap().grid, Grid::new(8, 2));
    v.open("b.png", 4);
    land(&mut v, &mut q, "b.png", None, 30);
    assert_eq!(v.flipbook_state(), None);
    assert_eq!(v.books.get("b.png"), PerPath::default());
}

#[test]
fn playback_moves_only_while_it_plays() {
    let mut q = TimerQueue::new();
    let mut v = shown("a.png", &mut q);
    v.toggle_flipbook(FlipbookCfg::default(), &mut q, 0);
    v.apply_transport_edit(TransportEdit::SetCols(4), &mut q, 0);
    assert!(v.advance_flipbook(num(2.5), 16));
    assert_eq!(value(v.flipbook_state().unwrap().frame_pos), 2.5);
    v.apply_transport_edit(TransportEdit::Pause, &mut q, 20);
    assert!(!v.advance_flipbook(num(3.5), 32));
    assert_eq!(value(v.flipbook_state().unwrap().frame_pos), 2.5);
    assert_eq!(v.awaited.flipbook, None);
}

#[test]
fn playback_and_steps_stay_on_the_loop() {
    let mut q = TimerQueue::new();
    let mut v = shown("a.png", &mut q);
    v.flipbook_guess_done(1, "a.png", Some(Grid::new(4, 1)), &mut q, 0);
    v.toggle_flipbook(FlipbookCfg::default(), &mut q, 0);
    assert!(v.advance_flipbook(num(9.5), 16));
    assert_eq!(value(v.flipbook_state().unwrap().frame_pos), 1.5);
    v.flipbook_step(-3, &mut q, 20);
    assert_eq!(value(v.flipbook_state().unwrap().frame_pos), 2.0);
    v.flipbook_step(0x7f_ffff, &mut q, 20);
    assert_eq!(value(v.flipbook_state().unwrap().frame_pos), 1.0);
    v.flipbook_step(-0x80_0000, &mut q, 20);
    assert_eq!(value(v.flipbook_state().unwrap().frame_pos), 1.0);
    v.flipbook_step(i32::MAX, &mut q, 20);
    assert_eq!(value(v.flipbook_state().unwrap().frame_pos), 0.0);
    v.flipbook_step(i32::MIN, &mut q, 20);
    assert_eq!(value(v.flipbook_state().unwrap().frame_pos), 0.0);
}

#[test]
fn a_dismissed_hint_stays_away() {
    let mut q = TimerQueue::new();
    let mut v = shown("a.png", &mut q);
    v.flipbook_guess_done(1, "a.png", Some(Grid::new(4, 2)), &mut q, 0);
    v.dismiss_hint();
    assert_eq!(v.chip_hint(), None);
}

#[test]
fn one_dialog_at_a_time() {
    let mut v = Viewer::new(1, true);
    v.want_dialog(Dialog::OpenImage);
    assert_eq!(v.take_dialog(), Some(Dialog::OpenImage));
    v.dialog_up(true);
    v.want_dialog(Dialog::BrowseProgram);
    assert_eq!(v.take_dialog(), None);
    assert_eq!(v.dialog_done(Dialog::OpenImage, true), DialogOrder::Open);
    assert_eq!(v.dialog_done(Dialog::OpenImage, false), DialogOrder::Nothing);
    assert_eq!(v.dialog_done(Dialog::BrowseProgram, true), DialogOrder::Nothing);
    v.open_settings();
    assert_eq!(v.pump.wanted, 32);
    assert_eq!(v.dialog_done(Dialog::BrowseProgram, true), DialogOrder::SetProgram);
}

#[test]
fn flipbook_keys_work_only_in_the_mode() {
    let mut q = TimerQueue::new();
    let mut v = shown("a.png", &mut q);
    let binds = Keybinds::defaults();
    let none = Held { control: false, command: false, alt: false, shift: false };
    let ctrl = Held { control: true, ..none };
    assert_eq!(v.handle_key(&binds, KeyCode::Space, none, Platform::Other), None);
    assert_eq!(
        v.handle_key(&binds, KeyCode::KeyO, ctrl, Platform::Other),
        Some(KeyAction::OpenFile)
    );
    v.toggle_flipbook(FlipbookCfg::default(), &mut q, 0);
    assert_eq!(
        v.handle_key(&binds, KeyCode::Space, none, Platform::Other),
        Some(KeyAction::FlipbookPlayPause)
    );
}

#[test]
fn keys_stay_with_what_is_up() {
    let mut v = Viewer::new(1, true);
    let calm = Wants { mouse: false, keyboard: false, text: false, capturing: true };
    let esc = Event::KeyPressed(KeyCode::Escape);
    assert!(matches!(v.window_event(esc, calm).dest, Dest::Key(KeyCode::Escape)));
    assert_eq!(v.pump.wanted, 2);
    v.open_menu();
    assert!(matches!(v.window_event(esc, calm).dest, Dest::DismissMenu));
    assert!(!v.menu_open && !v.close);
    v.open_settings();
    assert!(matches!(v.window_event(esc, calm).dest, Dest::Capture(KeyCode::Escape)));
    let typed = Wants { capturing: false, text: true, ..calm };
    assert!(matches!(v.window_event(esc, typed).dest, Dest::Interface));
    let shell = Wants { capturing: false, ..calm };
    assert!(matches!(v.window_event(esc, shell).dest, Dest::Settings(KeyCode::Escape)));
    assert_eq!(v.settings_key(KeyCode::KeyF), SettingsKey::Nothing);
    assert!(v.settings_open);
    assert_eq!(v.settings_key(KeyCode::Enter), SettingsKey::Commit);
    assert!(!v.settings_open);
    v.window_event(Event::CloseRequested, calm);
    assert!(v.close);
}

#[test]
fn the_caret_blinks_only_while_a_field_is_edited() {
    let mut q = TimerQueue::new();
    let mut v = Viewer::new(1, true);
    v.sync_caret_timer(true, &mut q, 100);
    let seq = v.awaited.caret.unwrap();
    assert_eq!(q.next_deadline(), Some(133));
    v.sync_caret_timer(true, &mut q, 110);
    assert_eq!(v.awaited.caret, Some(seq));
    v.sync_caret_timer(false, &mut q, 120);
    assert_eq!(v.awaited.caret, None);
}

#[test]
fn images_open_composited() {
    let mut s = Scene::new(true);
    let opaque = Picture { channels: 3, ..picture(10, 10) };
    let clear = Picture { channels: 4, alpha_opaque: false, ..opaque };
    s.set_image(opaque, true);
    assert_eq!(s.display.channel, Channel::Rgb);
    assert!(!s.has_alpha());
    s.toggle_channel(Channel::R);
    s.toggle_channel(Channel::R);
    assert_eq!(s.display.channel, Channel::Rgb);
    s.set_image(clear, true);
    assert!(s.has_alpha());
    assert_eq!(s.display.channel, Channel::Rgba);
    s.toggle_composite();
    assert_eq!(s.display.channel, Channel::Rgb);
    s.toggle_composite();
    assert_eq!(s.display.channel, Channel::Rgba);
    assert_eq!(default_background(clear), Background::Checker);
    s.toggle_channel(Channel::G);
    s.replace_image_keep_view(clear, true, false);
    assert_eq!(s.display.channel, Channel::G);
    assert_eq!(s.set_image(clear, false), None);
}

#[test]
fn a_chosen_backdrop_sticks() {
    let mut s = Scene::new(true);
    s.set_background(Background::Grey);
    s.set_image(Picture { alpha_opaque: false, ..picture(4, 4) }, true);
    assert_eq!(s.prefs.background, Background::Grey);
    s.set_background_pref(Some(Background::White));
    assert_eq!(s.prefs.background, Background::White);
    s.toggle_tonemap();
    assert_eq!(s.display.tonemap, Tonemap::Aces);
    s.toggle_octagon();
    assert!(s.prefs.octagon.enabled);
}

#[test]
fn drags_pan_and_zoom() {
    let mut s = Scene::new(true);
    s.set_image(picture(10, 10), true);
    assert_eq!(s.on_cursor_moved(true, true), Drag::Nothing);
    s.begin_drag();
    assert!(s.is_mouse_captured());
    assert_eq!(s.on_cursor_moved(false, false), Drag::Pan);
    s.end_drag();
    s.begin_zoom_drag();
    assert_eq!(s.on_cursor_moved(false, false), Drag::Nothing);
    assert_eq!(s.on_cursor_moved(false, true), Drag::Zoom);
    assert_eq!(s.on_cursor_moved(true, true), Drag::Zoom);
    assert_eq!(s.on_cursor_moved(false, true), Drag::Zoom);
    assert!(s.end_zoom_drag());
    s.begin_zoom_drag();
    assert!(!s.end_zoom_drag());
    assert_eq!(s.fit(), Framing::Fit { upscale: true });
    let codes = s.shader_codes();
    assert!(codes.has_image && !codes.is_hdr);
    assert_eq!(codes.image, Some((10, 10)));
    assert_eq!(codes.octagon_hide, num(0.0));
    assert!(codes.cells.is_none());
}
