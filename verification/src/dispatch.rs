//! What an event changes of a window before anything handles it, and what is drawn over the image:
//! the settings window and the popup menus.
use vstd::prelude::*;
use winit::keyboard::KeyCode;

use crate::playback::Pump;
use crate::routing::{route, settings_key, Dest, Event, Gates, Route, SettingsKey};
use crate::viewer::{redrawn, Session, Viewer};

verus! {

/// How many frames the settings window's fade takes.
pub const FADE_FRAMES: u8 = 32;

/// What the user interface says it wants, and whether a row of its bindings waits for a key.
#[derive(Debug, Clone, Copy, PartialEq, Eq, Structural)]
pub struct Wants {
    pub mouse: bool,
    pub keyboard: bool,
    pub text: bool,
    pub capturing: bool,
}

/// What decides over an event of a window.
pub open spec fn gates_of(s: Session, w: Wants) -> Gates {
    Gates {
        capturing: s.settings_open && w.capturing,
        dragging: s.scene.gesture.dragging || s.scene.gesture.zoom_dragging,
        ui_wants_mouse: w.mouse,
        ui_wants_keyboard: w.keyboard,
        ui_wants_text: w.text,
        settings_open: s.settings_open,
        menu_open: s.menu_open,
    }
}

/// The window once `n` frames were asked for.
pub open spec fn owing(s: Session, n: u8) -> Session {
    Session { pump: Pump { wanted: crate::playback::owed(s.pump.wanted, n) }, ..s }
}

/// The window after an event was routed: it owes the frames the event asks for, a request to close
/// is noted, and a dismissed menu is gone.
pub open spec fn noted(s: Session, e: Event, w: Wants) -> Session {
    let t = owing(s, crate::routing::frames_for(e));
    match (e, crate::routing::destination(e, gates_of(s, w))) {
        (Event::CloseRequested, _) => Session { close: true, ..t },
        (_, Dest::DismissMenu) => redrawn(Session { menu_open: false, ..t }),
        _ => t,
    }
}

impl Viewer {
    /// Route an event of the window and note what it changes of itself.
    pub fn window_event(&mut self, e: Event, w: Wants) -> (r: Route)
        ensures
            r.dest == crate::routing::destination(e, gates_of(old(self)@, w)),
            r.to_interface == crate::routing::interface_sees(e, gates_of(old(self)@, w)),
            r.frames == crate::routing::frames_for(e),
            final(self)@ == noted(old(self)@, e, w),
    {
        let gates = Gates {
            capturing: self.settings_open && w.capturing,
            dragging: self.scene.is_mouse_captured(),
            ui_wants_mouse: w.mouse,
            ui_wants_keyboard: w.keyboard,
            ui_wants_text: w.text,
            settings_open: self.settings_open,
            menu_open: self.menu_open,
        };
        let r = route(e, gates);
        self.pump.request_frames(r.frames);
        let ghost t = self@;
        assert(t =~= owing(old(self)@, r.frames));
        match e {
            Event::CloseRequested => {
                self.close = true;
            },
            _ => match r.dest {
                Dest::DismissMenu => {
                    self.menu_open = false;
                    assert(self@ =~= (Session { menu_open: false, ..t }));
                    self.redraw();
                },
                _ => {},
            },
        }
        assert(self@ =~= noted(old(self)@, e, w));
        r
    }

    /// Put the settings window up; one that is up stays. Its fade is drawn frame by frame, so that
    /// many are asked for.
    pub fn open_settings(&mut self)
        ensures
            final(self)@ == owing(Session { settings_open: true, ..old(self)@ }, FADE_FRAMES),
    {
        self.settings_open = true;
        self.pump.request_frames(FADE_FRAMES);
        assert(self@ =~= owing(Session { settings_open: true, ..old(self)@ }, FADE_FRAMES));
    }

    /// Take the settings window down.
    pub fn close_settings(&mut self)
        ensures
            final(self)@ == redrawn(Session { settings_open: false, ..old(self)@ }),
    {
        self.settings_open = false;
        assert(self@ =~= (Session { settings_open: false, ..old(self)@ }));
        self.redraw();
    }

    /// A shell key of the settings window: Escape takes it down and drops the draft, Enter takes it
    /// down and commits.
    pub fn settings_key(&mut self, code: KeyCode) -> (r: SettingsKey)
        ensures
            r == crate::routing::shell_key(code),
            final(self)@ == (if r == SettingsKey::Nothing {
                old(self)@
            } else {
                redrawn(Session { settings_open: false, ..old(self)@ })
            }),
    {
        let r = settings_key(code);
        match r {
            SettingsKey::Nothing => {},
            _ => {
                self.close_settings();
            },
        }
        r
    }

    /// Put a popup menu up.
    pub fn open_menu(&mut self)
        ensures
            final(self)@ == redrawn(Session { menu_open: true, ..old(self)@ }),
    {
        self.menu_open = true;
        assert(self@ =~= (Session { menu_open: true, ..old(self)@ }));
        self.redraw();
    }

    /// Take the popup menu down.
    pub fn close_menu(&mut self)
        ensures
            final(self)@ == redrawn(Session { menu_open: false, ..old(self)@ }),
    {
        self.menu_open = false;
        assert(self@ =~= (Session { menu_open: false, ..old(self)@ }));
        self.redraw();
    }
}

/// While the settings window or a menu is up, no key reaches the viewer's bindings.
pub proof fn law_keys_stay_with_what_is_up(s: Session, e: Event, w: Wants)
    requires
        s.settings_open || s.menu_open,
    ensures
        crate::routing::destination(e, gates_of(s, w)) !is Key,
{
}

/// Escape takes an open menu down and leaves the window open.
pub proof fn law_escape_closes_the_menu_first(s: Session, w: Wants)
    requires
        s.menu_open,
        !s.settings_open,
    ensures
        !noted(s, Event::KeyPressed(KeyCode::Escape), w).menu_open,
        noted(s, Event::KeyPressed(KeyCode::Escape), w).close == s.close,
{
}

/// What stands in the way of an event is read off the window: a recorded shortcut only counts
/// while the dialog is up, and either drag holds the mouse.
pub proof fn law_gates_follow_the_window(s: Session, w: Wants)
    ensures
        gates_of(s, w).capturing ==> s.settings_open && w.capturing,
        s.settings_open && w.capturing ==> gates_of(s, w).capturing,
        gates_of(s, w).dragging <==> s.scene.gesture.dragging || s.scene.gesture.zoom_dragging,
        gates_of(s, w).settings_open <==> s.settings_open,
        gates_of(s, w).menu_open <==> s.menu_open,
        gates_of(s, w).ui_wants_mouse <==> w.mouse,
        gates_of(s, w).ui_wants_keyboard <==> w.keyboard,
        gates_of(s, w).ui_wants_text <==> w.text,
{
}

/// An event closes the window only where closing was asked for, closes the menu only by Escape,
/// opens nothing, and leaves the scene alone. Input is owed its frames.
pub proof fn law_events_change_little(s: Session, e: Event, w: Wants)
    ensures
        noted(s, e, w).close <==> s.close || e == Event::CloseRequested,
        noted(s, e, w).settings_open == s.settings_open,
        noted(s, e, w).menu_open ==> s.menu_open,
        s.menu_open && !noted(s, e, w).menu_open ==> e == Event::KeyPressed(KeyCode::Escape),
        noted(s, e, w).scene == s.scene,
        noted(s, e, w).pump.wanted >= s.pump.wanted,
        crate::routing::is_mouse(e) || crate::routing::is_typing(e) ==> noted(
            s,
            e,
            w,
        ).pump.wanted >= 2,
{
}

/// Owed frames only grow, reach what was asked for, and owing touches nothing else.
pub proof fn law_owing_asks_for_frames(s: Session, n: u8)
    ensures
        owing(s, n).pump.wanted >= n,
        owing(s, n).pump.wanted >= s.pump.wanted,
        owing(s, n).pump.wanted == n || owing(s, n).pump.wanted == s.pump.wanted,
        owing(s, n) == (Session { pump: owing(s, n).pump, ..s }),
{
}

} // verus!
