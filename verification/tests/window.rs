use fire::chord::{KeyChord, Platform};
use fire::chrome::Action;
use fire::commands::{
    apply_ui, do_action, do_command, perform, perform_key_action, Command, CommandOrder,
    KeyContext, Order, SurfaceOp, UiFrame, UiStep, ViewOrder,
};
use fire::config::{InstanceMode, MenuEntry};
use fire::image::PixelFormat;
use fire::keybinds::KeyAction;
use fire::platform::LaunchShow;
use fire::playback::TransportEdit;
use fire::routing::{
    chord, on_mouse_button, pinch_zooms, route, settings_key, wheel_order, Button, ButtonOrder,
    Clicks, Dest, Event, Gates, Held, SettingsKey, WheelAction, WheelOrder,
};
use fire::scene::{Framing, Picture, Scene};
use fire::shell::{
    first_maximized, first_size, Delivery, OpenOrder, PlacementTracker, Shell, ShellEvent,
};
use fire::single::Single;
use fire::view::{Background, Channel, Tonemap};
use winit::keyboard::KeyCode;

fn num(v: f32) -> Single {
    Single::from_bits(v.to_bits())
}

fn calm() -> Gates {
    Gates {
        capturing: false,
        dragging: false,
        ui_wants_mouse: false,
        ui_wants_keyboard: false,
        ui_wants_text: false,
        settings_open: false,
        menu_open: false,
    }
}

fn busy() -> Gates {
    Gates {
        capturing: true,
        dragging: true,
        ui_wants_mouse: true,
        ui_wants_keyboard: true,
        ui_wants_text: true,
        settings_open: true,
        menu_open: true,
    }
}

#[test]
fn lifecycle_events_are_never_intercepted() {
    for e in [
        Event::RedrawRequested,
        Event::CloseRequested,
        Event::Resized,
        Event::Moved,
        Event::ScaleFactorChanged,
        Event::ThemeChanged,
        Event::DroppedFile,
        Event::ModifiersChanged,
    ] {
        assert!(matches!(route(e, busy()).dest, Dest::Lifecycle));
        assert!(matches!(route(e, calm()).dest, Dest::Lifecycle));
    }
}

#[test]
fn keys_go_where_they_are_wanted() {
    let key = Event::KeyPressed(KeyCode::KeyF);
    assert!(matches!(route(key, calm()).dest, Dest::Key(KeyCode::KeyF)));
    assert!(matches!(route(key, busy()).dest, Dest::Capture(KeyCode::KeyF)));
    let g = Gates { settings_open: true, ..calm() };
    assert!(matches!(route(key, g).dest, Dest::Settings(KeyCode::KeyF)));
    let g = Gates { ui_wants_text: true, ui_wants_keyboard: true, ..calm() };
    assert!(!matches!(route(key, g).dest, Dest::Key(_)));
    let g = Gates { menu_open: true, ..calm() };
    assert!(matches!(route(Event::KeyPressed(KeyCode::Escape), g).dest, Dest::DismissMenu));
    assert!(!matches!(route(Event::KeyOther, calm()).dest, Dest::Key(_)));
    assert_eq!(settings_key(KeyCode::Escape), SettingsKey::Cancel);
    assert_eq!(settings_key(KeyCode::Enter), SettingsKey::Commit);
    assert_eq!(settings_key(KeyCode::KeyF), SettingsKey::Nothing);
}

#[test]
fn a_drag_keeps_the_mouse() {
    let g = Gates { dragging: true, ui_wants_mouse: true, ..calm() };
    assert!(matches!(route(Event::CursorMoved, g).dest, Dest::Pointer));
    let g = Gates { ui_wants_mouse: true, ..calm() };
    assert!(matches!(route(Event::CursorMoved, g).dest, Dest::Interface));
    assert!(matches!(route(Event::MouseWheel, calm()).dest, Dest::Pointer));
}

#[test]
fn the_primary_modifier_depends_on_the_system() {
    let held = Held { control: true, command: false, alt: false, shift: true };
    assert_eq!(
        chord(KeyCode::KeyO, held, Platform::Other),
        KeyChord { key: KeyCode::KeyO, primary: true, alt: false, shift: true }
    );
    assert_eq!(
        chord(KeyCode::KeyO, held, Platform::Mac),
        KeyChord { key: KeyCode::KeyO, primary: false, alt: false, shift: true }
    );
}

#[test]
fn two_near_presses_make_one_double_click() {
    let mut c = Clicks { last: None };
    assert!(!c.press(100, false));
    assert!(c.press(300, true));
    assert!(!c.press(400, true));
    assert!(!c.press(5000, true));
    assert!(!c.press(5100, false));
}

#[test]
fn buttons_drag_and_open() {
    assert_eq!(on_mouse_button(Button::Left, true, true, true), ButtonOrder::OpenPicker);
    assert_eq!(on_mouse_button(Button::Left, true, false, false), ButtonOrder::BeginDrag);
    assert_eq!(on_mouse_button(Button::Left, true, true, false), ButtonOrder::Nothing);
    assert_eq!(on_mouse_button(Button::Middle, true, false, false), ButtonOrder::ToggleFullscreen);
    assert_eq!(on_mouse_button(Button::Left, false, false, false), ButtonOrder::EndDrag);
    assert_eq!(on_mouse_button(Button::Right, true, false, false), ButtonOrder::BeginZoomDrag);
    assert_eq!(on_mouse_button(Button::Right, false, false, false), ButtonOrder::EndZoomDrag);
    assert_eq!(on_mouse_button(Button::Other, true, false, false), ButtonOrder::Nothing);
    assert_eq!(wheel_order(false, WheelAction::Zoom, true), WheelOrder::Zoom);
    assert_eq!(wheel_order(false, WheelAction::Zoom, false), WheelOrder::Nothing);
    assert_eq!(wheel_order(false, WheelAction::NavigateFolder, false), WheelOrder::Navigate);
    assert_eq!(wheel_order(false, WheelAction::NavigateFolder, true), WheelOrder::Navigate);
    assert_eq!(wheel_order(true, WheelAction::NavigateFolder, true), WheelOrder::Zoom);
    assert!(pinch_zooms(num(1.5)));
    assert!(!pinch_zooms(num(0.0)));
    assert!(!pinch_zooms(num(f32::NAN)));
    assert!(!pinch_zooms(num(-1.0)));
}

fn context() -> KeyContext {
    KeyContext { background: Background::Checker, fullscreen: false, esc_closes_window: true }
}

#[test]
fn a_key_does_what_its_button_does() {
    for (a, k) in [
        (Action::Prev, KeyAction::PrevImage),
        (Action::Next, KeyAction::NextImage),
        (Action::ZoomIn, KeyAction::ZoomIn),
        (Action::ToggleTonemap, KeyAction::ToggleTonemap),
        (Action::ToggleOutline, KeyAction::ToggleOutline),
        (Action::ToggleFlipbook, KeyAction::ToggleFlipbook),
        (Action::Channel(Channel::R), KeyAction::ChannelR),
        (Action::ExpReset, KeyAction::ExposureReset),
    ] {
        assert_eq!(do_action(a, true), perform_key_action(k, context()));
    }
    assert_eq!(do_action(Action::ZoomToggle, true).0, Order::Surface(SurfaceOp::OneToOne));
    assert_eq!(do_action(Action::ZoomToggle, false).0, Order::Surface(SurfaceOp::Fit));
}

#[test]
fn escape_leaves_full_screen_before_it_closes() {
    let esc = KeyAction::CloseOrExitFullscreen;
    assert_eq!(perform_key_action(esc, context()).0, Order::CloseWindow);
    let full = KeyContext { fullscreen: true, ..context() };
    assert_eq!(perform_key_action(esc, full).0, Order::LeaveFullscreen);
    let kept = KeyContext { esc_closes_window: false, ..context() };
    assert_eq!(perform_key_action(esc, kept).0, Order::Nothing);
    assert_eq!(
        perform_key_action(KeyAction::CycleBackdrop, context()).0,
        Order::Surface(SurfaceOp::SetBackground(Background::Black))
    );
}

#[test]
fn surface_commands_change_the_scene() {
    let mut s = Scene::new(true);
    let v = perform(&mut s, SurfaceOp::ToggleTonemap, num(0.0));
    assert_eq!(v, ViewOrder::Frame(Framing::Keep));
    assert_eq!(s.display.tonemap, Tonemap::Aces);
    perform(&mut s, SurfaceOp::ExposureUp, num(0.25));
    assert_eq!(s.display.exposure, num(0.25));
    perform(&mut s, SurfaceOp::ExposureReset, num(9.0));
    assert_eq!(s.display.exposure, num(0.0));
    perform(&mut s, SurfaceOp::SetBackground(Background::White), num(0.0));
    assert_eq!(s.prefs.background, Background::White);
    assert_eq!(perform(&mut s, SurfaceOp::ZoomIn, num(0.0)), ViewOrder::Frame(Framing::Keep));
    s.set_image(
        Picture {
            width: 4,
            height: 4,
            format: PixelFormat::Rgba8Unorm,
            channels: 3,
            alpha_opaque: true,
        },
        true,
    );
    assert_eq!(perform(&mut s, SurfaceOp::ZoomIn, num(0.0)), ViewOrder::ZoomIn);
    assert_eq!(perform(&mut s, SurfaceOp::OneToOne, num(0.0)), ViewOrder::Frame(Framing::ActualSizeClamped));
}

#[test]
fn menu_commands_need_an_image() {
    let open_with = vec![MenuEntry {
        name: "Edit".to_string(),
        path: Some("/bin/edit".to_string()),
        args: vec!["-n".to_string(), "{path}".to_string()],
        items: vec![],
    }];
    let image = Some("/pics/a.png");
    match do_command(&Command::OpenWith(vec![0]), image, &open_with) {
        CommandOrder::Launch(program, args) => {
            assert_eq!(program, "/bin/edit");
            assert_eq!(args, vec!["-n".to_string(), "/pics/a.png".to_string()]);
        }
        _ => panic!("the entry is launched"),
    }
    assert!(matches!(
        do_command(&Command::OpenWith(vec![1]), image, &open_with),
        CommandOrder::Nothing
    ));
    assert!(matches!(
        do_command(&Command::OpenWith(vec![0]), None, &open_with),
        CommandOrder::Nothing
    ));
    match do_command(&Command::CopyFileName, image, &open_with) {
        CommandOrder::CopyText(t) => assert_eq!(t, "a.png"),
        _ => panic!("the name is copied"),
    }
    assert!(matches!(do_command(&Command::CopyPath, image, &open_with), CommandOrder::CopyPath));
    assert!(matches!(do_command(&Command::ShowInExplorer, image, &open_with), CommandOrder::Reveal));
    assert!(matches!(do_command(&Command::CopyFile, None, &open_with), CommandOrder::Nothing));
    assert!(matches!(
        do_command(&Command::OpenSettings, None, &open_with),
        CommandOrder::OpenSettings
    ));
}

#[test]
fn settings_are_applied_before_they_close() {
    let frame = UiFrame {
        edits: vec![TransportEdit::TogglePlay],
        actions: vec![Action::ZoomIn],
        chip_accept: false,
        chip_dismiss: true,
        command: false,
        menu_close: false,
        menu_open: false,
        octagon: false,
        settings_apply: true,
        settings_close: true,
        settings_browse: false,
    };
    let steps = apply_ui(&frame);
    let at = |s: UiStep| steps.iter().position(|x| *x == s).unwrap();
    assert!(at(UiStep::ApplySettings) < at(UiStep::CloseSettings));
    assert_eq!(steps[0], UiStep::Edit(TransportEdit::TogglePlay));
    assert!(steps.contains(&UiStep::Act(Action::ZoomIn)));
    assert!(steps.contains(&UiStep::DismissHint));
    assert_eq!(steps.len(), 5);
}

#[test]
fn opens_go_to_a_window_that_exists() {
    let mut s = Shell::new();
    assert!(s.start());
    assert!(!s.start());
    assert!(s.open_failed());
    assert_eq!(s.reuse_target(), None);
    assert_eq!(s.open_order(InstanceMode::SingleInstance), OpenOrder::NewWindow);
    s.opened(1);
    s.opened(2);
    assert!(!s.open_failed());
    s.focused(1);
    assert_eq!(s.reuse_target(), Some(1));
    assert_eq!(s.open_order(InstanceMode::SingleInstance), OpenOrder::Window(1));
    assert_eq!(s.open_order(InstanceMode::NewWindow), OpenOrder::NewWindow);
    assert_eq!(s.others(1), vec![2]);
    assert!(!s.close_window(1));
    assert_eq!(s.reuse_target(), Some(2));
    assert!(s.close_window(2));
    assert_eq!(s.reuse_target(), None);
}

#[test]
fn messages_for_a_closed_window_reach_nobody() {
    let mut s = Shell::new();
    s.opened(4);
    s.opened(7);
    s.close_window(4);
    let mode = InstanceMode::NewWindow;
    assert_eq!(s.handle_user_event(ShellEvent::FolderScanned(4), mode), Delivery::Nobody);
    assert_eq!(s.handle_user_event(ShellEvent::FolderScanned(7), mode), Delivery::Window(7));
    assert_eq!(s.handle_user_event(ShellEvent::DecodeDone(None), mode), Delivery::Window(7));
    assert_eq!(s.handle_user_event(ShellEvent::ThemeReloaded, mode), Delivery::EveryWindow);
    assert_eq!(s.handle_user_event(ShellEvent::Open, mode), Delivery::NewWindow);
    let (told, exit) = s.after_dispatch(7, true, true);
    assert_eq!((told, exit), (vec![], true));
}

#[test]
fn the_window_comes_back_where_it_was() {
    assert_eq!(first_size(Some((800, 600))), (800, 600));
    assert_eq!(first_size(None), (1280, 800));
    assert_eq!(first_size(Some((0, -5))), (200, 150));
    assert!(first_maximized(Some(LaunchShow::Maximized), Some(false)));
    assert!(!first_maximized(Some(LaunchShow::Normal), Some(false)));
    assert!(first_maximized(None, Some(true)));
    assert!(!first_maximized(None, None));
    let mut t = PlacementTracker { pos: None, size: None, maximized: false };
    t.moved(10, 20, true);
    t.resized(640, 480, true, false, false);
    t.moved(0, 0, false);
    t.resized(1920, 1080, false, true, false);
    let p = t.placement(Some((1, 1)), (1920, 1080)).unwrap();
    assert_eq!((p.x, p.y, p.width, p.height, p.maximized), (10, 20, 640, 480, true));
}
