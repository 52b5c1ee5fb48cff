//! What a command does, whether it comes from a toolbar button, a key or the actions menu.
use vstd::prelude::*;

use crate::chrome::Action;
use crate::config::{entry_at, MenuEntry};
use crate::keybinds::KeyAction;
use crate::playback::TransportEdit;
use crate::scene::{Framing, Scene};
use crate::single::Single;
use crate::view::{Background, Channel};

verus! {

/// A change of how the image is shown.
#[derive(Debug, Clone, Copy, PartialEq, Eq, Structural)]
pub enum SurfaceOp {
    ZoomIn,
    ZoomOut,
    Fit,
    OneToOne,
    ToggleComposite,
    ToggleChannel(Channel),
    ToggleTonemap,
    ExposureUp,
    ExposureDown,
    ExposureReset,
    ToggleOutline,
    SetBackground(Background),
}

/// What a command leads to.
#[derive(Debug, Clone, Copy, PartialEq, Eq, Structural)]
pub enum Order {
    Surface(SurfaceOp),
    /// Page by this many images.
    Navigate(isize),
    ToggleFullscreen,
    LeaveFullscreen,
    CloseWindow,
    ToggleFlipbook,
    Edit(TransportEdit),
    /// Step by this many frames.
    Step(i32),
    OpenPicker,
    CloseImage,
    OpenSettings,
    Nothing,
}

/// Whether a repaint follows; the other commands bring their own.
pub open spec fn repaints(o: Order) -> bool {
    match o {
        Order::Surface(_)
        | Order::ToggleFullscreen
        | Order::LeaveFullscreen
        | Order::CloseWindow => true,
        _ => false,
    }
}

/// What a button leads to. `fit` says whether the view is in fit mode.
pub open spec fn button_order(a: Action, fit: bool) -> Order {
    match a {
        Action::Prev => Order::Navigate((-1) as isize),
        Action::Next => Order::Navigate(1),
        Action::ZoomOut => Order::Surface(SurfaceOp::ZoomOut),
        Action::ZoomIn => Order::Surface(SurfaceOp::ZoomIn),
        Action::ZoomToggle => if fit {
            Order::Surface(SurfaceOp::OneToOne)
        } else {
            Order::Surface(SurfaceOp::Fit)
        },
        Action::Channel(Channel::Rgb) | Action::Channel(Channel::Rgba) => Order::Surface(
            SurfaceOp::ToggleComposite,
        ),
        Action::Channel(c) => Order::Surface(SurfaceOp::ToggleChannel(c)),
        Action::ToggleTonemap => Order::Surface(SurfaceOp::ToggleTonemap),
        Action::ExpUp => Order::Surface(SurfaceOp::ExposureUp),
        Action::ExpReset => Order::Surface(SurfaceOp::ExposureReset),
        Action::ExpDown => Order::Surface(SurfaceOp::ExposureDown),
        Action::ToggleOutline => Order::Surface(SurfaceOp::ToggleOutline),
        Action::Background(bg) => Order::Surface(SurfaceOp::SetBackground(bg)),
        Action::ToggleFullscreen => Order::ToggleFullscreen,
        Action::ToggleFlipbook => Order::ToggleFlipbook,
        Action::OpenSettings => Order::OpenSettings,
        Action::OpenWithMenu | Action::Overflow => Order::Nothing,
    }
}

/// What the keys' state adds to a bound command.
#[derive(Debug, Clone, Copy, PartialEq, Eq, Structural)]
pub struct KeyContext {
    pub background: Background,
    pub fullscreen: bool,
    /// Whether Escape closes the window outside full screen.
    pub esc_closes_window: bool,
}

/// What a bound command leads to.
pub open spec fn key_order(a: KeyAction, c: KeyContext) -> Order {
    match a {
        KeyAction::OpenFile => Order::OpenPicker,
        KeyAction::CloseImage => Order::CloseImage,
        KeyAction::Fit => Order::Surface(SurfaceOp::Fit),
        KeyAction::ActualSize => Order::Surface(SurfaceOp::OneToOne),
        KeyAction::ZoomIn => Order::Surface(SurfaceOp::ZoomIn),
        KeyAction::ZoomOut => Order::Surface(SurfaceOp::ZoomOut),
        KeyAction::ChannelRgb => Order::Surface(SurfaceOp::ToggleComposite),
        KeyAction::ChannelR => Order::Surface(SurfaceOp::ToggleChannel(Channel::R)),
        KeyAction::ChannelG => Order::Surface(SurfaceOp::ToggleChannel(Channel::G)),
        KeyAction::ChannelB => Order::Surface(SurfaceOp::ToggleChannel(Channel::B)),
        KeyAction::ChannelA => Order::Surface(SurfaceOp::ToggleChannel(Channel::A)),
        KeyAction::ToggleTonemap => Order::Surface(SurfaceOp::ToggleTonemap),
        KeyAction::ExposureUp => Order::Surface(SurfaceOp::ExposureUp),
        KeyAction::ExposureDown => Order::Surface(SurfaceOp::ExposureDown),
        KeyAction::ExposureReset => Order::Surface(SurfaceOp::ExposureReset),
        KeyAction::ToggleOutline => Order::Surface(SurfaceOp::ToggleOutline),
        KeyAction::CycleBackdrop => Order::Surface(
            SurfaceOp::SetBackground(crate::view::next_background(c.background)),
        ),
        KeyAction::PrevImage => Order::Navigate((-1) as isize),
        KeyAction::NextImage => Order::Navigate(1),
        KeyAction::ToggleFullscreen => Order::ToggleFullscreen,
        KeyAction::CloseOrExitFullscreen => if c.fullscreen {
            Order::LeaveFullscreen
        } else if c.esc_closes_window {
            Order::CloseWindow
        } else {
            Order::Nothing
        },
        KeyAction::ToggleFlipbook => Order::ToggleFlipbook,
        KeyAction::FlipbookPlayPause => Order::Edit(TransportEdit::TogglePlay),
        KeyAction::FlipbookPrevFrame => Order::Step((-1) as i32),
        KeyAction::FlipbookNextFrame => Order::Step(1),
    }
}

/// What a button leads to, and whether a repaint follows.
pub fn do_action(a: Action, fit: bool) -> (r: (Order, bool))
    ensures
        r.0 == button_order(a, fit),
        r.1 == repaints(r.0),
{
    let order = match a {
        Action::Prev => Order::Navigate(-1),
        Action::Next => Order::Navigate(1),
        Action::ZoomOut => Order::Surface(SurfaceOp::ZoomOut),
        Action::ZoomIn => Order::Surface(SurfaceOp::ZoomIn),
        Action::ZoomToggle => if fit {
            Order::Surface(SurfaceOp::OneToOne)
        } else {
            Order::Surface(SurfaceOp::Fit)
        },
        Action::Channel(Channel::Rgb) | Action::Channel(Channel::Rgba) => Order::Surface(
            SurfaceOp::ToggleComposite,
        ),
        Action::Channel(c) => Order::Surface(SurfaceOp::ToggleChannel(c)),
        Action::ToggleTonemap => Order::Surface(SurfaceOp::ToggleTonemap),
        Action::ExpUp => Order::Surface(SurfaceOp::ExposureUp),
        Action::ExpReset => Order::Surface(SurfaceOp::ExposureReset),
        Action::ExpDown => Order::Surface(SurfaceOp::ExposureDown),
        Action::ToggleOutline => Order::Surface(SurfaceOp::ToggleOutline),
        Action::Background(bg) => Order::Surface(SurfaceOp::SetBackground(bg)),
        Action::ToggleFullscreen => Order::ToggleFullscreen,
        Action::ToggleFlipbook => Order::ToggleFlipbook,
        Action::OpenSettings => Order::OpenSettings,
        Action::OpenWithMenu | Action::Overflow => Order::Nothing,
    };
    (order, repaint_follows(order))
}

fn repaint_follows(o: Order) -> (r: bool)
    ensures
        r == repaints(o),
{
    match o {
        Order::Surface(_)
        | Order::ToggleFullscreen
        | Order::LeaveFullscreen
        | Order::CloseWindow => true,
        _ => false,
    }
}

/// What a bound command leads to, and whether a repaint follows.
pub fn perform_key_action(a: KeyAction, c: KeyContext) -> (r: (Order, bool))
    ensures
        r.0 == key_order(a, c),
        r.0 == Order::OpenPicker <==> a == KeyAction::OpenFile,
        r.0 == Order::CloseImage <==> a == KeyAction::CloseImage,
        r.1 == (repaints(r.0) || a == KeyAction::CloseOrExitFullscreen),
{
    let order = match a {
        KeyAction::OpenFile => Order::OpenPicker,
        KeyAction::CloseImage => Order::CloseImage,
        KeyAction::Fit => Order::Surface(SurfaceOp::Fit),
        KeyAction::ActualSize => Order::Surface(SurfaceOp::OneToOne),
        KeyAction::ZoomIn => Order::Surface(SurfaceOp::ZoomIn),
        KeyAction::ZoomOut => Order::Surface(SurfaceOp::ZoomOut),
        KeyAction::ChannelRgb => Order::Surface(SurfaceOp::ToggleComposite),
        KeyAction::ChannelR => Order::Surface(SurfaceOp::ToggleChannel(Channel::R)),
        KeyAction::ChannelG => Order::Surface(SurfaceOp::ToggleChannel(Channel::G)),
        KeyAction::ChannelB => Order::Surface(SurfaceOp::ToggleChannel(Channel::B)),
        KeyAction::ChannelA => Order::Surface(SurfaceOp::ToggleChannel(Channel::A)),
        KeyAction::ToggleTonemap => Order::Surface(SurfaceOp::ToggleTonemap),
        KeyAction::ExposureUp => Order::Surface(SurfaceOp::ExposureUp),
        KeyAction::ExposureDown => Order::Surface(SurfaceOp::ExposureDown),
        KeyAction::ExposureReset => Order::Surface(SurfaceOp::ExposureReset),
        KeyAction::ToggleOutline => Order::Surface(SurfaceOp::ToggleOutline),
        KeyAction::CycleBackdrop => Order::Surface(
            SurfaceOp::SetBackground(c.background.next()),
        ),
        KeyAction::PrevImage => Order::Navigate(-1),
        KeyAction::NextImage => Order::Navigate(1),
        KeyAction::ToggleFullscreen => Order::ToggleFullscreen,
        KeyAction::CloseOrExitFullscreen => {
            let order = if c.fullscreen {
                Order::LeaveFullscreen
            } else if c.esc_closes_window {
                Order::CloseWindow
            } else {
                Order::Nothing
            };
            return (order, true);
        },
        KeyAction::ToggleFlipbook => Order::ToggleFlipbook,
        KeyAction::FlipbookPlayPause => Order::Edit(TransportEdit::TogglePlay),
        KeyAction::FlipbookPrevFrame => Order::Step(-1),
        KeyAction::FlipbookNextFrame => Order::Step(1),
    };
    (order, repaint_follows(order))
}

/// A button and the key that its tooltip names do the same.
pub proof fn law_tooltip_key_does_the_same(a: Action, fit: bool, c: KeyContext)
    requires
        crate::chrome::tip(a, fit).1 is Some,
    ensures
        button_order(a, fit) == key_order(crate::chrome::tip(a, fit).1->0, c),
{
}

/// Escape never closes a window that is in full screen.
pub proof fn law_escape_leaves_fullscreen_first(c: KeyContext)
    requires
        c.fullscreen,
    ensures
        key_order(KeyAction::CloseOrExitFullscreen, c) == Order::LeaveFullscreen,
{
}

/// What a change of the display asks of the view.
#[derive(Debug, Clone, Copy, PartialEq, Eq, Structural)]
pub enum ViewOrder {
    Frame(Framing),
    /// Zoom about the centre by one step.
    ZoomIn,
    ZoomOut,
}

/// Change how the image is shown. `exposure` is what one step up or down from the current exposure
/// gives.
pub fn perform(scene: &mut Scene, op: SurfaceOp, exposure: Single) -> (v: ViewOrder)
    ensures
        *final(scene) == performed(*old(scene), op, exposure),
        v == match op {
            SurfaceOp::ZoomIn => if old(scene).shown is Some {
                ViewOrder::ZoomIn
            } else {
                ViewOrder::Frame(Framing::Keep)
            },
            SurfaceOp::ZoomOut => if old(scene).shown is Some {
                ViewOrder::ZoomOut
            } else {
                ViewOrder::Frame(Framing::Keep)
            },
            SurfaceOp::Fit => ViewOrder::Frame(
                if old(scene).shown is Some {
                    Framing::Fit { upscale: old(scene).prefs.fit_upscale }
                } else {
                    Framing::Keep
                },
            ),
            SurfaceOp::OneToOne => ViewOrder::Frame(
                if old(scene).shown is Some {
                    Framing::ActualSizeClamped
                } else {
                    Framing::ActualSize
                },
            ),
            _ => ViewOrder::Frame(Framing::Keep),
        },
{
    match op {
        SurfaceOp::ZoomIn => {
            if scene.shown.is_some() {
                return ViewOrder::ZoomIn;
            }
        },
        SurfaceOp::ZoomOut => {
            if scene.shown.is_some() {
                return ViewOrder::ZoomOut;
            }
        },
        SurfaceOp::Fit => {
            return ViewOrder::Frame(scene.fit());
        },
        SurfaceOp::OneToOne => {
            return ViewOrder::Frame(scene.one_to_one());
        },
        SurfaceOp::ToggleComposite => scene.toggle_composite(),
        SurfaceOp::ToggleChannel(c) => scene.toggle_channel(c),
        SurfaceOp::ToggleTonemap => scene.toggle_tonemap(),
        SurfaceOp::ExposureUp => scene.adjust_exposure(exposure),
        SurfaceOp::ExposureDown => scene.adjust_exposure(exposure),
        SurfaceOp::ExposureReset => scene.reset_exposure(),
        SurfaceOp::ToggleOutline => scene.toggle_outline(),
        SurfaceOp::SetBackground(bg) => scene.set_background(bg),
    }
    ViewOrder::Frame(Framing::Keep)
}

/// The scene after a change of how the image is shown.
pub open spec fn performed(s: Scene, op: SurfaceOp, exposure: Single) -> Scene {
    let d = s.display;
    match op {
        SurfaceOp::ToggleComposite => Scene {
            display: crate::scene::Display {
                channel: crate::view::toggled_composite(d.channel, crate::scene::shows_alpha(s)),
                ..d
            },
            ..s
        },
        SurfaceOp::ToggleChannel(c) => Scene {
            display: crate::scene::Display {
                channel: crate::view::toggled_channel(d.channel, c, crate::scene::shows_alpha(s)),
                ..d
            },
            ..s
        },
        SurfaceOp::ToggleTonemap => Scene {
            display: crate::scene::Display { tonemap: crate::view::other_tonemap(d.tonemap), ..d },
            ..s
        },
        SurfaceOp::ExposureUp | SurfaceOp::ExposureDown => Scene {
            display: crate::scene::Display {
                exposure: crate::scene::exposure_in_range(exposure),
                ..d
            },
            ..s
        },
        SurfaceOp::ExposureReset => Scene {
            display: crate::scene::Display { exposure: Single { bits: 0 }, ..d },
            ..s
        },
        SurfaceOp::ToggleOutline => Scene {
            prefs: crate::scene::Prefs { outline: !s.prefs.outline, ..s.prefs },
            ..s
        },
        SurfaceOp::SetBackground(bg) => Scene {
            prefs: crate::scene::Prefs {
                background: bg,
                background_override: Some(bg),
                ..s.prefs
            },
            ..s
        },
        _ => s,
    }
}

/// A command of the actions menu.
#[derive(Debug)]
pub enum Command {
    ShowInExplorer,
    CopyFile,
    CopyPath,
    CopyFileName,
    OpenSettings,
    /// Launch the entry at this index chain.
    OpenWith(Vec<usize>),
}

/// What a command of the menu leads to.
#[derive(Debug)]
pub enum CommandOrder {
    Reveal,
    CopyFile,
    CopyPath,
    /// Copy this text.
    CopyText(String),
    OpenSettings,
    /// Start this program with these arguments.
    Launch(String, Vec<String>),
    Nothing,
}

/// The program of an entry and the arguments for an image; a submenu, or a chain that leads
/// nowhere, launches nothing.
pub open spec fn is_launch(
    entries: Seq<MenuEntry>,
    chain: Seq<usize>,
    image: Seq<char>,
    r: CommandOrder,
) -> bool {
    match crate::config::entry_along(entries, chain) {
        Some(e) => match e.path {
            Some(program) => r matches CommandOrder::Launch(p, args) && p@ == program@
                && args@.map_values(|s: String| s@) == crate::config::launch_args(e.args@, image),
            None => r is Nothing,
        },
        None => r is Nothing,
    }
}

/// What a command of the actions menu leads to for the image at `image`. Without an image only the
/// settings can be opened.
pub fn do_command(cmd: &Command, image: Option<&str>, open_with: &Vec<MenuEntry>) -> (r: CommandOrder)
    ensures
        image is None ==> (if *cmd is OpenSettings {
            r is OpenSettings
        } else {
            r is Nothing
        }),
        image matches Some(path) ==> match *cmd {
            Command::ShowInExplorer => r is Reveal,
            Command::CopyFile => r is CopyFile,
            Command::CopyPath => r is CopyPath,
            Command::CopyFileName => r matches CommandOrder::CopyText(t) && t@
                == crate::status::shown_name(path@),
            Command::OpenSettings => r is OpenSettings,
            Command::OpenWith(chain) => is_launch(open_with@, chain@, path@, r),
        },
{
    let path = match image {
        Some(path) => path,
        None => {
            return match cmd {
                Command::OpenSettings => CommandOrder::OpenSettings,
                _ => CommandOrder::Nothing,
            };
        },
    };
    match cmd {
        Command::ShowInExplorer => CommandOrder::Reveal,
        Command::CopyFile => CommandOrder::CopyFile,
        Command::CopyPath => CommandOrder::CopyPath,
        Command::CopyFileName => CommandOrder::CopyText(crate::status::file_name(path)),
        Command::OpenSettings => CommandOrder::OpenSettings,
        Command::OpenWith(chain) => match entry_at(open_with.as_slice(), chain.as_slice()) {
            Some(e) => match &e.path {
                Some(program) => {
                    let args = e.resolved_args(path);
                    CommandOrder::Launch(program.as_str().to_owned(), args)
                },
                None => CommandOrder::Nothing,
            },
            None => CommandOrder::Nothing,
        },
    }
}

/// What the user interface asked for while it was drawn.
#[derive(Debug)]
pub struct UiFrame {
    pub edits: Vec<TransportEdit>,
    pub actions: Vec<Action>,
    pub chip_accept: bool,
    pub chip_dismiss: bool,
    /// A command of the menu was chosen.
    pub command: bool,
    pub menu_close: bool,
    /// A menu is to be opened.
    pub menu_open: bool,
    /// The overlay's options changed.
    pub octagon: bool,
    pub settings_apply: bool,
    pub settings_close: bool,
    pub settings_browse: bool,
}

/// One thing to do after a frame.
#[derive(Debug, Clone, Copy, PartialEq, Eq, Structural)]
pub enum UiStep {
    Edit(TransportEdit),
    Act(Action),
    ToggleFlipbook,
    DismissHint,
    RunCommand,
    CloseMenu,
    OpenMenu,
    SetOctagon,
    ApplySettings,
    CloseSettings,
    BrowseProgram,
}

pub open spec fn edit_steps(edits: Seq<TransportEdit>) -> Seq<UiStep> {
    edits.map_values(|e: TransportEdit| UiStep::Edit(e))
}

pub open spec fn action_steps(actions: Seq<Action>) -> Seq<UiStep> {
    actions.map_values(|a: Action| UiStep::Act(a))
}

pub open spec fn step_if(steps: Seq<UiStep>, wanted: bool, step: UiStep) -> Seq<UiStep> {
    if wanted {
        steps.push(step)
    } else {
        steps
    }
}

/// The steps of a frame up to the overlay's.
pub open spec fn early_steps(f: UiFrame) -> Seq<UiStep> {
    let s = edit_steps(f.edits@) + action_steps(f.actions@);
    let s = step_if(s, f.chip_accept, UiStep::ToggleFlipbook);
    let s = step_if(s, f.chip_dismiss, UiStep::DismissHint);
    let s = step_if(s, f.command, UiStep::RunCommand);
    let s = step_if(s, f.menu_close, UiStep::CloseMenu);
    let s = step_if(s, f.menu_open, UiStep::OpenMenu);
    step_if(s, f.octagon, UiStep::SetOctagon)
}

/// What to do after a frame, in order.
pub open spec fn ui_steps(f: UiFrame) -> Seq<UiStep> {
    let s = step_if(early_steps(f), f.settings_apply, UiStep::ApplySettings);
    let s = step_if(s, f.settings_close, UiStep::CloseSettings);
    step_if(s, f.settings_browse, UiStep::BrowseProgram)
}

/// What to do after a frame, in order: the transport's edits, the buttons, the hint, the menus, the
/// overlay, and the settings, which are applied before they are closed.
pub fn apply_ui(f: &UiFrame) -> (steps: Vec<UiStep>)
    ensures
        steps@ == ui_steps(*f),
{
    let mut steps: Vec<UiStep> = Vec::new();
    let mut i: usize = 0;
    while i < f.edits.len()
        invariant
            i <= f.edits.len(),
            steps@ =~= edit_steps(f.edits@.take(i as int)),
        decreases f.edits.len() - i,
    {
        steps.push(UiStep::Edit(f.edits[i]));
        assert(edit_steps(f.edits@.take(i + 1)) =~= edit_steps(f.edits@.take(i as int)).push(
            UiStep::Edit(f.edits@[i as int]),
        ));
        i += 1;
    }
    assert(f.edits@.take(f.edits.len() as int) =~= f.edits@);
    let mut k: usize = 0;
    assert(steps@ =~= edit_steps(f.edits@) + action_steps(f.actions@.take(0)));
    while k < f.actions.len()
        invariant
            k <= f.actions.len(),
            steps@ =~= edit_steps(f.edits@) + action_steps(f.actions@.take(k as int)),
        decreases f.actions.len() - k,
    {
        steps.push(UiStep::Act(f.actions[k]));
        assert(action_steps(f.actions@.take(k + 1)) =~= action_steps(
            f.actions@.take(k as int),
        ).push(UiStep::Act(f.actions@[k as int])));
        k += 1;
    }
    assert(f.actions@.take(f.actions.len() as int) =~= f.actions@);
    assert(steps@ == edit_steps(f.edits@) + action_steps(f.actions@));
    push_if(&mut steps, f.chip_accept, UiStep::ToggleFlipbook);
    push_if(&mut steps, f.chip_dismiss, UiStep::DismissHint);
    push_if(&mut steps, f.command, UiStep::RunCommand);
    push_if(&mut steps, f.menu_close, UiStep::CloseMenu);
    push_if(&mut steps, f.menu_open, UiStep::OpenMenu);
    push_if(&mut steps, f.octagon, UiStep::SetOctagon);
    push_if(&mut steps, f.settings_apply, UiStep::ApplySettings);
    push_if(&mut steps, f.settings_close, UiStep::CloseSettings);
    push_if(&mut steps, f.settings_browse, UiStep::BrowseProgram);
    steps
}

fn push_if(steps: &mut Vec<UiStep>, wanted: bool, step: UiStep)
    ensures
        final(steps)@ == step_if(old(steps)@, wanted, step),
{
    if wanted {
        steps.push(step);
    }
}

/// Settings that are both applied and closed in one frame are applied first, so that nothing is
/// lost.
pub proof fn law_settings_apply_before_close(f: UiFrame)
    requires
        f.settings_apply,
        f.settings_close,
    ensures
        ({
            let i = early_steps(f).len() as int;
            ui_steps(f).len() > i + 1 && ui_steps(f)[i] == UiStep::ApplySettings && ui_steps(f)[i
                + 1] == UiStep::CloseSettings
        }),
{
}

/// A key does what its command is named for, and no other command does it: one opens the picker,
/// one closes the image, one pages each way, and each display command is one of its own.
pub proof fn law_each_key_command_does_its_own(a: KeyAction, c: KeyContext, ch: Channel)
    ensures
        key_order(a, c) == Order::OpenPicker <==> a == KeyAction::OpenFile,
        key_order(a, c) == Order::CloseImage <==> a == KeyAction::CloseImage,
        key_order(a, c) == Order::Surface(SurfaceOp::Fit) <==> a == KeyAction::Fit,
        key_order(a, c) == Order::Surface(SurfaceOp::OneToOne) <==> a == KeyAction::ActualSize,
        key_order(a, c) == Order::Surface(SurfaceOp::ZoomIn) <==> a == KeyAction::ZoomIn,
        key_order(a, c) == Order::Surface(SurfaceOp::ZoomOut) <==> a == KeyAction::ZoomOut,
        key_order(a, c) == Order::Surface(SurfaceOp::ToggleComposite) <==> a
            == KeyAction::ChannelRgb,
        key_order(a, c) == Order::Surface(SurfaceOp::ToggleChannel(ch)) <==> (a
            == KeyAction::ChannelR && ch == Channel::R) || (a == KeyAction::ChannelG && ch
            == Channel::G) || (a == KeyAction::ChannelB && ch == Channel::B) || (a
            == KeyAction::ChannelA && ch == Channel::A),
        key_order(a, c) == Order::Surface(SurfaceOp::ToggleTonemap) <==> a
            == KeyAction::ToggleTonemap,
        key_order(a, c) == Order::Surface(SurfaceOp::ExposureUp) <==> a == KeyAction::ExposureUp,
        key_order(a, c) == Order::Surface(SurfaceOp::ExposureDown) <==> a
            == KeyAction::ExposureDown,
        key_order(a, c) == Order::Surface(SurfaceOp::ExposureReset) <==> a
            == KeyAction::ExposureReset,
        key_order(a, c) == Order::Surface(SurfaceOp::ToggleOutline) <==> a
            == KeyAction::ToggleOutline,
        (key_order(a, c) matches Order::Surface(op) && op is SetBackground) <==> a
            == KeyAction::CycleBackdrop,
        key_order(a, c) == Order::ToggleFullscreen <==> a == KeyAction::ToggleFullscreen,
        key_order(a, c) == Order::ToggleFlipbook <==> a == KeyAction::ToggleFlipbook,
        key_order(a, c) == Order::Edit(TransportEdit::TogglePlay) <==> a
            == KeyAction::FlipbookPlayPause,
{
}

/// The key for the next image pages one forward, the one for the previous image one back, so that
/// they undo each other; the two frame keys step likewise.
pub proof fn law_paging_keys_are_opposite(a: KeyAction, c: KeyContext)
    ensures
        key_order(a, c) matches Order::Navigate(d) ==> (d == 1 <==> a == KeyAction::NextImage) && (d
            == -1 <==> a == KeyAction::PrevImage),
        key_order(a, c) is Navigate <==> a == KeyAction::NextImage || a == KeyAction::PrevImage,
        key_order(a, c) matches Order::Step(d) ==> (d == 1 <==> a == KeyAction::FlipbookNextFrame)
            && (d == -1 <==> a == KeyAction::FlipbookPrevFrame),
        key_order(a, c) is Step <==> a == KeyAction::FlipbookNextFrame || a
            == KeyAction::FlipbookPrevFrame,
        button_order(Action::Next, true) == key_order(KeyAction::NextImage, c),
        button_order(Action::Prev, true) == key_order(KeyAction::PrevImage, c),
{
}

/// Only Escape leaves full screen or closes the window: it closes only a window that is not in full
/// screen, and only where that is asked for.
pub proof fn law_only_escape_closes(a: KeyAction, c: KeyContext)
    ensures
        key_order(a, c) == Order::LeaveFullscreen <==> a == KeyAction::CloseOrExitFullscreen
            && c.fullscreen,
        key_order(a, c) == Order::CloseWindow <==> a == KeyAction::CloseOrExitFullscreen
            && !c.fullscreen && c.esc_closes_window,
        key_order(a, c) == Order::Nothing <==> a == KeyAction::CloseOrExitFullscreen
            && !c.fullscreen && !c.esc_closes_window,
        key_order(a, c) != Order::OpenSettings,
{
}

/// The backdrop key always goes to another backdrop.
pub proof fn law_backdrop_key_moves_on(c: KeyContext)
    ensures
        key_order(KeyAction::CycleBackdrop, c) != Order::Surface(
            SurfaceOp::SetBackground(c.background),
        ),
{
}

/// A button does what it shows, and no other button does it.
pub proof fn law_each_button_does_its_own(a: Action, fit: bool, ch: Channel, bg: Background)
    ensures
        button_order(a, fit) matches Order::Navigate(d) ==> (d == 1 <==> a == Action::Next) && (d
            == -1 <==> a == Action::Prev),
        button_order(a, fit) is Navigate <==> a == Action::Next || a == Action::Prev,
        button_order(a, fit) == Order::Surface(SurfaceOp::ZoomIn) <==> a == Action::ZoomIn,
        button_order(a, fit) == Order::Surface(SurfaceOp::ZoomOut) <==> a == Action::ZoomOut,
        button_order(a, fit) == Order::Surface(SurfaceOp::Fit) <==> a == Action::ZoomToggle && !fit,
        button_order(a, fit) == Order::Surface(SurfaceOp::OneToOne) <==> a == Action::ZoomToggle
            && fit,
        button_order(a, fit) == Order::Surface(SurfaceOp::ToggleComposite) <==> a
            == Action::Channel(Channel::Rgb) || a == Action::Channel(Channel::Rgba),
        button_order(a, fit) == Order::Surface(SurfaceOp::ToggleChannel(ch)) <==> a
            == Action::Channel(ch) && ch != Channel::Rgb && ch != Channel::Rgba,
        button_order(a, fit) == Order::Surface(SurfaceOp::SetBackground(bg)) <==> a
            == Action::Background(bg),
        button_order(a, fit) == Order::Surface(SurfaceOp::ToggleTonemap) <==> a
            == Action::ToggleTonemap,
        button_order(a, fit) == Order::Surface(SurfaceOp::ExposureUp) <==> a == Action::ExpUp,
        button_order(a, fit) == Order::Surface(SurfaceOp::ExposureDown) <==> a == Action::ExpDown,
        button_order(a, fit) == Order::Surface(SurfaceOp::ExposureReset) <==> a == Action::ExpReset,
        button_order(a, fit) == Order::Surface(SurfaceOp::ToggleOutline) <==> a
            == Action::ToggleOutline,
        button_order(a, fit) == Order::ToggleFullscreen <==> a == Action::ToggleFullscreen,
        button_order(a, fit) == Order::ToggleFlipbook <==> a == Action::ToggleFlipbook,
        button_order(a, fit) == Order::OpenSettings <==> a == Action::OpenSettings,
        button_order(a, fit) == Order::Nothing <==> a == Action::OpenWithMenu || a
            == Action::Overflow,
{
}

/// What changes the picture or the window is painted at once; what pages, loads, plays or asks
/// brings its own frame.
pub proof fn law_display_orders_repaint(o: Order)
    ensures
        o is Surface || o is ToggleFullscreen || o is LeaveFullscreen || o is CloseWindow
            ==> repaints(o),
        o is Navigate || o is Edit || o is Step || o is OpenPicker || o is CloseImage
            || o is OpenSettings || o is ToggleFlipbook || o is Nothing ==> !repaints(o),
{
}

/// A display command changes what it is for and leaves the image and everything else: zooming the
/// scene at all, the outline but itself, a backdrop but the backdrop, and so on.
pub proof fn law_display_commands_keep_to_themselves(s: Scene, op: SurfaceOp, e: Single)
    ensures
        performed(s, op, e).shown == s.shown,
        performed(s, op, e).flipbook == s.flipbook,
        op is ZoomIn || op is ZoomOut || op is Fit || op is OneToOne ==> performed(s, op, e) == s,
        op is ToggleOutline <==> performed(s, op, e).prefs.outline != s.prefs.outline,
        op is ToggleTonemap <==> performed(s, op, e).display.tonemap != s.display.tonemap,
        !(op is ToggleComposite || op is ToggleChannel) ==> performed(s, op, e).display.channel
            == s.display.channel,
        !(op is ExposureUp || op is ExposureDown || op is ExposureReset) ==> performed(
            s,
            op,
            e,
        ).display.exposure == s.display.exposure,
        op is ExposureReset ==> performed(s, op, e).display.exposure.bits == 0,
        !(op is SetBackground) ==> performed(s, op, e).prefs.background == s.prefs.background
            && performed(s, op, e).prefs.background_override == s.prefs.background_override,
        op matches SurfaceOp::SetBackground(bg) ==> performed(s, op, e).prefs.background == bg
            && performed(s, op, e).prefs.background_override == Some(bg),
        op is ToggleOutline || op is ToggleTonemap ==> performed(performed(s, op, e), op, e) == s,
{
}

/// A channel command shows its channel, and given again the whole picture; the composite command
/// always shows the whole picture.
pub proof fn law_channel_commands_show_their_channel(s: Scene, ch: Channel, e: Single)
    requires
        ch != Channel::Rgb,
        ch != Channel::Rgba,
    ensures
        s.display.channel != ch ==> performed(s, SurfaceOp::ToggleChannel(ch), e).display.channel
            == ch,
        s.display.channel == ch ==> performed(s, SurfaceOp::ToggleChannel(ch), e).display.channel
            == Channel::Rgb || performed(s, SurfaceOp::ToggleChannel(ch), e).display.channel
            == Channel::Rgba,
        performed(s, SurfaceOp::ToggleComposite, e).display.channel == Channel::Rgb || performed(
            s,
            SurfaceOp::ToggleComposite,
            e,
        ).display.channel == Channel::Rgba,
{
}

proof fn lemma_three_steps(s: Seq<UiStep>, a: bool, x: UiStep, b: bool, y: UiStep, c: bool, z: UiStep)
    ensures
        ({
            let t = step_if(step_if(step_if(s, a, x), b, y), c, z);
            &&& t.len() == s.len() + (a as int) + (b as int) + (c as int)
            &&& forall|k: int| 0 <= k < s.len() ==> #[trigger] t[k] == s[k]
        }),
{
}

/// Everything that a frame of the interface asks for is done, once and in its turn: the edits as
/// they came, the buttons after them, then the hint, the command, the menu, the overlay and last the
/// settings; nothing else is done.
#[verifier::rlimit(40)]
pub proof fn law_nothing_asked_is_lost(f: UiFrame, i: int)
    ensures
        0 <= i < f.edits.len() ==> ui_steps(f)[i] == UiStep::Edit(f.edits@[i]),
        0 <= i < f.actions.len() ==> ui_steps(f)[f.edits.len() + i] == UiStep::Act(f.actions@[i]),
        ui_steps(f).len() == f.edits.len() + f.actions.len() + (f.chip_accept as int) + (
        f.chip_dismiss as int) + (f.command as int) + (f.menu_close as int) + (f.menu_open as int)
            + (f.octagon as int) + (f.settings_apply as int) + (f.settings_close as int) + (
        f.settings_browse as int),
{
    let asked = edit_steps(f.edits@) + action_steps(f.actions@);
    let hinted = step_if(
        step_if(
            step_if(asked, f.chip_accept, UiStep::ToggleFlipbook),
            f.chip_dismiss,
            UiStep::DismissHint,
        ),
        f.command,
        UiStep::RunCommand,
    );
    lemma_three_steps(
        asked,
        f.chip_accept,
        UiStep::ToggleFlipbook,
        f.chip_dismiss,
        UiStep::DismissHint,
        f.command,
        UiStep::RunCommand,
    );
    lemma_three_steps(
        hinted,
        f.menu_close,
        UiStep::CloseMenu,
        f.menu_open,
        UiStep::OpenMenu,
        f.octagon,
        UiStep::SetOctagon,
    );
    lemma_three_steps(
        early_steps(f),
        f.settings_apply,
        UiStep::ApplySettings,
        f.settings_close,
        UiStep::CloseSettings,
        f.settings_browse,
        UiStep::BrowseProgram,
    );
}

/// An accepted hint is answered by flipbook mode, a dismissed one by its dismissal, and a command
/// runs after both.
pub proof fn law_hints_come_before_commands(f: UiFrame, n: int)
    requires
        n == f.edits.len() + f.actions.len(),
    ensures
        f.chip_accept ==> early_steps(f)[n] == UiStep::ToggleFlipbook,
        f.chip_dismiss ==> early_steps(f)[n + (f.chip_accept as int)] == UiStep::DismissHint,
        f.command ==> early_steps(f)[n + (f.chip_accept as int) + (f.chip_dismiss as int)]
            == UiStep::RunCommand,
{
}

/// A menu that is closed and opened in one frame is open at its end; the overlay is set after it.
pub proof fn law_menu_closes_before_it_opens(f: UiFrame)
    ensures
        f.octagon ==> early_steps(f).last() == UiStep::SetOctagon,
        f.menu_open && !f.octagon ==> early_steps(f).last() == UiStep::OpenMenu,
        f.menu_close && f.menu_open && !f.octagon ==> early_steps(f).drop_last().last()
            == UiStep::CloseMenu,
        f.menu_close && !f.menu_open && !f.octagon ==> early_steps(f).last() == UiStep::CloseMenu,
{
    let s = edit_steps(f.edits@) + action_steps(f.actions@);
    let s = step_if(s, f.chip_accept, UiStep::ToggleFlipbook);
    let s = step_if(s, f.chip_dismiss, UiStep::DismissHint);
    let s = step_if(s, f.command, UiStep::RunCommand);
    let t = step_if(s, f.menu_close, UiStep::CloseMenu);
    if f.menu_open && !f.octagon {
        assert(early_steps(f) == t.push(UiStep::OpenMenu));
        assert(early_steps(f).drop_last() =~= t);
    }
}

/// What the settings window asks comes last: its program is looked for after it was closed.
pub proof fn law_settings_come_last(f: UiFrame)
    ensures
        f.settings_browse ==> ui_steps(f).last() == UiStep::BrowseProgram,
        f.settings_close && !f.settings_browse ==> ui_steps(f).last() == UiStep::CloseSettings,
        f.settings_apply && !f.settings_close && !f.settings_browse ==> ui_steps(f).last()
            == UiStep::ApplySettings,
        !f.settings_apply && !f.settings_close && !f.settings_browse ==> ui_steps(f) == early_steps(
            f,
        ),
{
}

/// A menu entry launches its own program, with the image among its arguments where it names none.
pub proof fn law_launch_is_of_the_entry(
    entries: Seq<MenuEntry>,
    chain: Seq<usize>,
    image: Seq<char>,
    r: CommandOrder,
)
    requires
        is_launch(entries, chain, image, r),
    ensures
        r is Launch || r is Nothing,
        r is Launch <==> (crate::config::entry_along(entries, chain) matches Some(e)
            && e.path is Some),
        r matches CommandOrder::Launch(p, args) ==> {
            let e = crate::config::entry_along(entries, chain)->0;
            &&& p@ == (e.path->0)@
            &&& e.args.len() == 0 ==> args.len() == 1 && args@[0]@ == image
            &&& e.args.len() > 0 ==> args.len() == e.args.len()
        },
{
    if r is Launch {
        let e = crate::config::entry_along(entries, chain)->0;
        let t = r->Launch_1@.map_values(|s: String| s@);
        assert(t == crate::config::launch_args(e.args@, image));
        assert(t.len() == r->Launch_1.len());
        if e.args.len() == 0 {
            assert(t[0] == r->Launch_1@[0]@);
        }
    }
}

} // verus!
