//! Who owns an input event. Lifecycle events come first and nothing intercepts them; then an armed
//! key capture, the user interface, the settings window and an open menu each take what is theirs;
//! only what is left acts on the image.
use vstd::prelude::*;
use winit::keyboard::KeyCode;

use crate::single::Single;

verus! {

/// Two presses within this many milliseconds make a double click.
pub const DOUBLE_CLICK_MS: u64 = 500;

/// A window event, by what decides its route.
#[derive(Debug, Clone, Copy)]
pub enum Event {
    RedrawRequested,
    CloseRequested,
    Resized,
    Moved,
    ScaleFactorChanged,
    ThemeChanged,
    DroppedFile,
    ModifiersChanged,
    Destroyed,
    /// A key with a known place on the keyboard went down.
    KeyPressed(KeyCode),
    /// Any other keyboard event.
    KeyOther,
    /// Text from an input method.
    Ime,
    CursorMoved,
    MouseButton,
    MouseWheel,
    Pinch,
    Other,
}

/// Who holds what when an event arrives.
#[derive(Debug, Clone, Copy, PartialEq, Eq, Structural)]
pub struct Gates {
    /// A row of the key bindings waits for a key.
    pub capturing: bool,
    /// A drag of the image is in flight.
    pub dragging: bool,
    /// The pointer is over a widget.
    pub ui_wants_mouse: bool,
    /// The user interface takes the keys.
    pub ui_wants_keyboard: bool,
    /// A text field is being edited.
    pub ui_wants_text: bool,
    pub settings_open: bool,
    pub menu_open: bool,
}

/// Where an event goes.
#[derive(Debug, Clone, Copy)]
pub enum Dest {
    /// The window itself.
    Lifecycle,
    /// The key is the binding that is being captured.
    Capture(KeyCode),
    /// The user interface keeps it.
    Interface,
    /// A shell key of the settings window.
    Settings(KeyCode),
    /// The open menu is dismissed.
    DismissMenu,
    /// A mouse event on the image.
    Pointer,
    /// A key for the viewer's bindings.
    Key(KeyCode),
    Nowhere,
}

/// The route of an event.
#[derive(Debug, Clone, Copy)]
pub struct Route {
    pub dest: Dest,
    /// Whether the user interface sees the event.
    pub to_interface: bool,
    /// How many frames the event asks for.
    pub frames: u8,
}

pub open spec fn is_lifecycle(e: Event) -> bool {
    match e {
        Event::RedrawRequested
        | Event::CloseRequested
        | Event::Resized
        | Event::Moved
        | Event::ScaleFactorChanged
        | Event::ThemeChanged
        | Event::DroppedFile
        | Event::ModifiersChanged
        | Event::Destroyed => true,
        _ => false,
    }
}

pub open spec fn is_mouse(e: Event) -> bool {
    match e {
        Event::CursorMoved | Event::MouseButton | Event::MouseWheel | Event::Pinch => true,
        _ => false,
    }
}

pub open spec fn is_typing(e: Event) -> bool {
    match e {
        Event::KeyPressed(_) | Event::KeyOther | Event::Ime => true,
        _ => false,
    }
}

/// Where a key press goes once nothing captures it.
pub open spec fn key_dest(code: KeyCode, g: Gates) -> Dest {
    if g.settings_open {
        if g.ui_wants_text {
            Dest::Interface
        } else {
            Dest::Settings(code)
        }
    } else if g.menu_open {
        if code == KeyCode::Escape {
            Dest::DismissMenu
        } else {
            Dest::Interface
        }
    } else if g.ui_wants_keyboard {
        Dest::Interface
    } else {
        Dest::Key(code)
    }
}

/// Where an event goes.
pub open spec fn destination(e: Event, g: Gates) -> Dest {
    if is_lifecycle(e) {
        Dest::Lifecycle
    } else if is_mouse(e) {
        if g.ui_wants_mouse && !g.dragging {
            Dest::Interface
        } else {
            Dest::Pointer
        }
    } else {
        match e {
            Event::KeyPressed(code) => if g.capturing {
                Dest::Capture(code)
            } else {
                key_dest(code, g)
            },
            _ => Dest::Nowhere,
        }
    }
}

/// Whether the user interface sees an event: every input but a captured key, and of the lifecycle
/// what changes its metrics or modifiers.
pub open spec fn interface_sees(e: Event, g: Gates) -> bool {
    match e {
        Event::Resized | Event::ScaleFactorChanged | Event::ModifiersChanged => true,
        Event::KeyPressed(_) => !g.capturing,
        _ => !is_lifecycle(e),
    }
}

/// The frames that an event asks for by itself: input asks for two, so that hover and active
/// states settle, also where something else takes it.
pub open spec fn frames_for(e: Event) -> u8 {
    if is_mouse(e) || is_typing(e) {
        2
    } else {
        0
    }
}

/// Route an event.
pub fn route(e: Event, g: Gates) -> (r: Route)
    ensures
        r.dest == destination(e, g),
        r.to_interface == interface_sees(e, g),
        r.frames == frames_for(e),
{
    match e {
        Event::Resized | Event::ScaleFactorChanged | Event::ModifiersChanged => {
            return Route { dest: Dest::Lifecycle, to_interface: true, frames: 0 };
        },
        Event::RedrawRequested
        | Event::CloseRequested
        | Event::Moved
        | Event::ThemeChanged
        | Event::DroppedFile
        | Event::Destroyed => {
            return Route { dest: Dest::Lifecycle, to_interface: false, frames: 0 };
        },
        _ => {},
    }
    match e {
        Event::KeyPressed(code) => {
            if g.capturing {
                return Route { dest: Dest::Capture(code), to_interface: false, frames: 2 };
            }
        },
        _ => {},
    }
    let mouse = match e {
        Event::CursorMoved | Event::MouseButton | Event::MouseWheel | Event::Pinch => true,
        _ => false,
    };
    let typing = match e {
        Event::KeyPressed(_) | Event::KeyOther | Event::Ime => true,
        _ => false,
    };
    let frames: u8 = if mouse || typing {
        2
    } else {
        0
    };
    if mouse && !g.dragging && g.ui_wants_mouse {
        return Route { dest: Dest::Interface, to_interface: true, frames };
    }
    let dest = match e {
        Event::KeyPressed(code) => {
            if g.settings_open {
                if g.ui_wants_text {
                    Dest::Interface
                } else {
                    Dest::Settings(code)
                }
            } else if g.menu_open {
                match code {
                    KeyCode::Escape => Dest::DismissMenu,
                    _ => Dest::Interface,
                }
            } else if g.ui_wants_keyboard {
                Dest::Interface
            } else {
                Dest::Key(code)
            }
        },
        _ => if mouse {
            Dest::Pointer
        } else {
            Dest::Nowhere
        },
    };
    Route { dest, to_interface: true, frames }
}

/// Nothing keeps a lifecycle event from the window.
pub proof fn law_lifecycle_is_never_intercepted(e: Event, g: Gates, h: Gates)
    requires
        is_lifecycle(e),
    ensures
        destination(e, g) == Dest::Lifecycle,
        destination(e, h) == destination(e, g),
{
}

/// An armed capture takes every key press, Escape as well, before the user interface sees it.
pub proof fn law_capture_takes_every_key(code: KeyCode, g: Gates)
    requires
        g.capturing,
    ensures
        destination(Event::KeyPressed(code), g) == Dest::Capture(code),
        !interface_sees(Event::KeyPressed(code), g),
{
}

/// While the settings window, a menu or a text field holds the keys, none reaches the viewer's
/// bindings.
pub proof fn law_held_keys_do_not_reach_viewer(code: KeyCode, other: KeyCode, g: Gates)
    requires
        g.capturing || g.settings_open || g.menu_open || g.ui_wants_keyboard,
    ensures
        destination(Event::KeyPressed(code), g) != Dest::Key(other),
{
}

/// A drag keeps the mouse to its end, wherever the cursor strays.
pub proof fn law_drag_keeps_mouse(e: Event, g: Gates)
    requires
        is_mouse(e),
        g.dragging,
    ensures
        destination(e, g) == Dest::Pointer,
{
}

/// What a shell key does to the settings window.
#[derive(Debug, Clone, Copy, PartialEq, Eq, Structural)]
pub enum SettingsKey {
    Cancel,
    Commit,
    Nothing,
}

/// What a key means to the settings window.
pub open spec fn shell_key(code: KeyCode) -> SettingsKey {
    if code == KeyCode::Escape {
        SettingsKey::Cancel
    } else if code == KeyCode::Enter || code == KeyCode::NumpadEnter {
        SettingsKey::Commit
    } else {
        SettingsKey::Nothing
    }
}

/// Escape cancels the settings, Enter commits them.
pub fn settings_key(code: KeyCode) -> (r: SettingsKey)
    ensures
        r == shell_key(code),
{
    match code {
        KeyCode::Escape => SettingsKey::Cancel,
        KeyCode::Enter => SettingsKey::Commit,
        KeyCode::NumpadEnter => SettingsKey::Commit,
        _ => SettingsKey::Nothing,
    }
}

/// The modifier keys held.
#[derive(Debug, Clone, Copy, PartialEq, Eq, Structural)]
pub struct Held {
    pub control: bool,
    pub command: bool,
    pub alt: bool,
    pub shift: bool,
}

/// The chord of a key with the modifiers held; the primary one is Command on a Mac and Control
/// elsewhere.
pub fn chord(key: KeyCode, held: Held, platform: crate::chord::Platform) -> (c: crate::chord::KeyChord)
    ensures
        c.key == key,
        c.primary == if platform == crate::chord::Platform::Mac {
            held.command
        } else {
            held.control
        },
        c.alt == held.alt,
        c.shift == held.shift,
{
    let primary = match platform {
        crate::chord::Platform::Mac => held.command,
        _ => held.control,
    };
    crate::chord::KeyChord { key, primary, alt: held.alt, shift: held.shift }
}

/// The previous left press, for double clicks.
#[derive(Debug, Clone, Copy, PartialEq, Eq, Structural)]
pub struct Clicks {
    pub last: Option<u64>,
}

/// Whether a press at `now`, near the last one or not, makes a double click.
pub open spec fn is_double(last: Option<u64>, now: u64, near: bool) -> bool {
    near && (last matches Some(t) && now - t <= DOUBLE_CLICK_MS)
}

impl Clicks {
    /// The left button went down. Tells whether that makes a double click, which ends the count.
    pub fn press(&mut self, now: u64, near: bool) -> (double: bool)
        ensures
            double == is_double(old(self).last, now, near),
            final(self).last == if double {
                None
            } else {
                Some(now)
            },
    {
        let double = match self.last {
            Some(t) => near && (now <= t || now - t <= DOUBLE_CLICK_MS),
            None => false,
        };
        self.last = if double {
            None
        } else {
            Some(now)
        };
        double
    }
}

/// A third press right after a double click does not make another.
pub proof fn law_double_click_ends_count(last: Option<u64>, now: u64, next: u64, near: bool)
    requires
        is_double(last, now, true),
    ensures
        !is_double(None, next, near),
{
}

/// A mouse button.
#[derive(Debug, Clone, Copy, PartialEq, Eq, Structural)]
pub enum Button {
    Left,
    Right,
    Middle,
    Other,
}

/// What a mouse button over the image does.
#[derive(Debug, Clone, Copy, PartialEq, Eq, Structural)]
pub enum ButtonOrder {
    Nothing,
    /// A double click on the empty viewport opens the picker.
    OpenPicker,
    BeginDrag,
    EndDrag,
    BeginZoomDrag,
    EndZoomDrag,
    ToggleFullscreen,
}

/// What a button does. `double` is whether a left press makes a double click, `on_empty` whether
/// nothing is shown and the cursor is over the image region.
pub fn on_mouse_button(button: Button, pressed: bool, double: bool, on_empty: bool) -> (r: ButtonOrder)
    ensures
        button == Button::Left && pressed && double ==> r == (if on_empty {
            ButtonOrder::OpenPicker
        } else {
            ButtonOrder::Nothing
        }),
        button == Button::Left && pressed && !double ==> r == ButtonOrder::BeginDrag,
        button == Button::Left && !pressed ==> r == ButtonOrder::EndDrag,
        button == Button::Right && pressed ==> r == ButtonOrder::BeginZoomDrag,
        button == Button::Right && !pressed ==> r == ButtonOrder::EndZoomDrag,
        button == Button::Middle && pressed ==> r == ButtonOrder::ToggleFullscreen,
        button == Button::Middle && !pressed ==> r == ButtonOrder::Nothing,
        button == Button::Other ==> r == ButtonOrder::Nothing,
        r == button_order(button, pressed, double, on_empty),
{
    match button {
        Button::Left => if pressed {
            if double {
                if on_empty {
                    ButtonOrder::OpenPicker
                } else {
                    ButtonOrder::Nothing
                }
            } else {
                ButtonOrder::BeginDrag
            }
        } else {
            ButtonOrder::EndDrag
        },
        Button::Right => if pressed {
            ButtonOrder::BeginZoomDrag
        } else {
            ButtonOrder::EndZoomDrag
        },
        Button::Middle => if pressed {
            ButtonOrder::ToggleFullscreen
        } else {
            ButtonOrder::Nothing
        },
        Button::Other => ButtonOrder::Nothing,
    }
}

/// What the wheel is set to do.
#[derive(Debug, Clone, Copy, PartialEq, Eq, Structural)]
pub enum WheelAction {
    Zoom,
    NavigateFolder,
}

/// What a turn of the wheel does.
#[derive(Debug, Clone, Copy, PartialEq, Eq, Structural)]
pub enum WheelOrder {
    Nothing,
    Zoom,
    Navigate,
}

/// What a turn of the wheel does: with Control held it always zooms.
pub fn wheel_order(control: bool, set: WheelAction, turned: bool) -> (r: WheelOrder)
    ensures
        control || set == WheelAction::Zoom ==> r == (if turned {
            WheelOrder::Zoom
        } else {
            WheelOrder::Nothing
        }),
        !control && set == WheelAction::NavigateFolder ==> r == WheelOrder::Navigate,
        r == wheel_does(control, set, turned),
{
    if control || set == WheelAction::Zoom {
        if turned {
            WheelOrder::Zoom
        } else {
            WheelOrder::Nothing
        }
    } else {
        WheelOrder::Navigate
    }
}

/// Whether a pinch factor is one to zoom by: finite and above zero.
pub fn pinch_zooms(factor: Single) -> (r: bool)
    ensures
        r == (crate::single::is_finite(factor) && crate::single::rank(factor) > 0),
{
    factor.bits > 0 && factor.bits < 0x7f80_0000
}

/// Where each kind of event may go: the pointer's to the picture or the interface, a key to
/// whoever holds the keyboard, and nothing but keys to a shortcut, a menu or the dialog.
pub proof fn law_events_keep_to_their_kind(e: Event, g: Gates)
    ensures
        destination(e, g) == Dest::Pointer ==> is_mouse(e),
        destination(e, g) == Dest::Lifecycle <==> is_lifecycle(e),
        destination(e, g) is Key || destination(e, g) is Settings || destination(e, g) is Capture
            || destination(e, g) == Dest::DismissMenu ==> e is KeyPressed,
        destination(e, g) == Dest::Nowhere <==> e == Event::KeyOther || e == Event::Ime || e
            == Event::Other,
        is_mouse(e) ==> (destination(e, g) == Dest::Interface <==> g.ui_wants_mouse && !g.dragging),
        is_mouse(e) ==> destination(e, g) == Dest::Pointer || destination(e, g) == Dest::Interface,
        !(is_lifecycle(e) && is_mouse(e)),
        !(is_lifecycle(e) && is_typing(e)),
        !(is_mouse(e) && is_typing(e)),
{
}

/// A pressed key keeps its code on the way and goes to the first that holds the keyboard: a
/// shortcut being recorded, then the dialog, then a menu, then the interface, then the viewer.
pub proof fn law_keys_go_to_their_holder(code: KeyCode, g: Gates)
    ensures
        ({
            let d = destination(Event::KeyPressed(code), g);
            &&& d == Dest::Capture(code) <==> g.capturing
            &&& d is Capture ==> g.capturing
            &&& d is Settings <==> !g.capturing && g.settings_open && !g.ui_wants_text
            &&& d is Settings ==> d == Dest::Settings(code)
            &&& d == Dest::DismissMenu <==> !g.capturing && !g.settings_open && g.menu_open && code
                == KeyCode::Escape
            &&& d is Key <==> !g.capturing && !g.settings_open && !g.menu_open
                && !g.ui_wants_keyboard
            &&& d is Key ==> d == Dest::Key(code)
        }),
{
}

/// The interface sees all input but a key being recorded, and of the window's own events those
/// that change its layout or the held modifiers.
pub proof fn law_interface_sees_input(e: Event, g: Gates)
    ensures
        is_mouse(e) ==> interface_sees(e, g),
        e == Event::KeyOther || e == Event::Ime || e == Event::Other ==> interface_sees(e, g),
        e is KeyPressed ==> (interface_sees(e, g) <==> !g.capturing),
        is_lifecycle(e) ==> (interface_sees(e, g) <==> e == Event::Resized || e
            == Event::ScaleFactorChanged || e == Event::ModifiersChanged),
        destination(e, g) == Dest::Interface ==> interface_sees(e, g),
{
}

/// Input is drawn in two frames; an event of the window itself asks for none.
pub proof fn law_input_is_drawn_twice(e: Event)
    ensures
        frames_for(e) == 2 <==> is_mouse(e) || is_typing(e),
        frames_for(e) == 0 <==> is_lifecycle(e) || e == Event::Other,
{
}

/// In the dialog one key cancels and the two Enter keys commit.
pub proof fn law_dialog_keys(code: KeyCode)
    ensures
        shell_key(code) == SettingsKey::Cancel <==> code == KeyCode::Escape,
        shell_key(code) == SettingsKey::Commit <==> code == KeyCode::Enter || code
            == KeyCode::NumpadEnter,
{
}

/// Two clicks are a double click only near each other and within half a second, counted from the
/// first; sooner is never worse.
pub proof fn law_double_clicks_are_quick(t: u64, now: u64, sooner: u64, near: bool)
    ensures
        is_double(Some(t), now, near) ==> near && now <= t + 500,
        near && now <= t + 500 ==> is_double(Some(t), now, near),
        is_double(Some(t), now, near) && t <= sooner <= now ==> is_double(Some(t), sooner, near),
        !is_double(None, now, near),
{
}

/// What a mouse button orders.
pub open spec fn button_order(button: Button, pressed: bool, double: bool, on_empty: bool) -> ButtonOrder {
    match (button, pressed) {
        (Button::Left, true) => if !double {
            ButtonOrder::BeginDrag
        } else if on_empty {
            ButtonOrder::OpenPicker
        } else {
            ButtonOrder::Nothing
        },
        (Button::Left, false) => ButtonOrder::EndDrag,
        (Button::Right, true) => ButtonOrder::BeginZoomDrag,
        (Button::Right, false) => ButtonOrder::EndZoomDrag,
        (Button::Middle, true) => ButtonOrder::ToggleFullscreen,
        _ => ButtonOrder::Nothing,
    }
}

/// Which button begins, ends or switches what: the left one pans, the right one zooms, the middle
/// one switches to full screen as it goes down, and a double click on an empty window opens a
/// file. Every drag that a press begins, its release ends.
pub proof fn law_buttons(button: Button, pressed: bool, double: bool, on_empty: bool, other: bool)
    ensures
        ({
            let r = button_order(button, pressed, double, on_empty);
            &&& r == ButtonOrder::BeginDrag <==> button == Button::Left && pressed && !double
            &&& r == ButtonOrder::EndDrag <==> button == Button::Left && !pressed
            &&& r == ButtonOrder::BeginZoomDrag <==> button == Button::Right && pressed
            &&& r == ButtonOrder::EndZoomDrag <==> button == Button::Right && !pressed
            &&& r == ButtonOrder::ToggleFullscreen <==> button == Button::Middle && pressed
            &&& r == ButtonOrder::OpenPicker <==> button == Button::Left && pressed && double
                && on_empty
            &&& r == ButtonOrder::BeginDrag ==> button_order(button, false, other, on_empty)
                == ButtonOrder::EndDrag
            &&& r == ButtonOrder::BeginZoomDrag ==> button_order(button, false, other, on_empty)
                == ButtonOrder::EndZoomDrag
        }),
{
}

/// What the wheel orders.
pub open spec fn wheel_does(control: bool, set: WheelAction, turned: bool) -> WheelOrder {
    if !control && set == WheelAction::NavigateFolder {
        WheelOrder::Navigate
    } else if turned {
        WheelOrder::Zoom
    } else {
        WheelOrder::Nothing
    }
}

/// With Control held the wheel zooms whatever the setting; without it the setting decides. Only
/// a wheel that turned zooms.
pub proof fn law_control_makes_the_wheel_zoom(control: bool, set: WheelAction, turned: bool)
    ensures
        wheel_does(true, set, turned) == wheel_does(control, WheelAction::Zoom, turned),
        wheel_does(control, set, turned) == WheelOrder::Navigate <==> set
            == WheelAction::NavigateFolder && !control,
        wheel_does(control, set, turned) == WheelOrder::Zoom <==> turned && (control || set
            == WheelAction::Zoom),
        wheel_does(true, set, true) == WheelOrder::Zoom,
{
}

} // verus!
