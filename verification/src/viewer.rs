//! One viewer window: which image it shows or waits for, what of its folder it can page through,
//! what plays, and what each event changes of that. The window system, the decoder and the GPU are
//! the caller's: an event comes in as plain values, the answer says what is to be done.
use vstd::prelude::*;
use winit::keyboard::KeyCode;

use crate::chord::{KeyChord, Platform};
use crate::chrome::ViewSnapshot;
use crate::config::FlipbookCfg;
use crate::flipbook::{Grid, PerPath};
use crate::folder::Folder;
use crate::keybinds::{KeyAction, Keybinds, ShortcutLabels};
use crate::playback::{
    anim_deadline, apply_edit, stepped_position, surface_flipbook, AnimState, Awaited, Books,
    EditReach, Pump, TransportEdit,
};
use crate::routing::{chord, Held};
use crate::scene::{Framing, Picture, Scene};
use crate::shell::{FolderScan, Initial};
use crate::single::Single;
use crate::status::{file_name, status_left, status_right, StatusRight};
use crate::text::same_text;
use crate::timers::{TimerKind, TimerQueue};

verus! {

/// The longest decoded axis; larger images are reduced.
pub const MAX_CPU_DIM: u32 = 16384;

/// The interval of the flipbook timer in milliseconds.
pub const FLIPBOOK_TICK_MS: u64 = 16;

/// The interval of the caret timer in milliseconds.
pub const CARET_BLINK_MS: u64 = 33;

/// A native dialog that a window wants run.
#[derive(Debug, Clone, Copy, PartialEq, Eq, Structural)]
pub enum Dialog {
    /// Pick an image to open.
    OpenImage,
    /// Pick a program for an entry of the open-with menu.
    BrowseProgram,
}

/// What is done with the answer of a dialog.
#[derive(Debug, Clone, Copy, PartialEq, Eq, Structural)]
pub enum DialogOrder {
    Nothing,
    /// Open the image that was picked.
    Open,
    /// Enter the program that was picked, if the settings are still open.
    SetProgram,
}

/// What becomes of a finished decode.
#[derive(Debug, Clone, Copy, PartialEq, Eq, Structural)]
pub enum Verdict {
    /// It was overtaken by a newer request.
    Stale,
    /// The reload of an image whose dimensions did not change: the view stays.
    KeepView,
    /// A new image.
    Fresh,
}

/// A viewer window.
pub struct Viewer {
    /// The window's number.
    pub id: u64,
    pub scene: Scene,
    pub anim: AnimState,
    pub books: Books,
    /// The cursor over the sibling images, once their scan has landed.
    pub folder: Option<Folder>,
    /// The image that is shown or being loaded.
    pub current: Option<String>,
    /// The image whose pixels are on the surface.
    pub shown: Option<String>,
    pub loading: bool,
    pub label: String,
    pub meta: String,
    pub awaited: Awaited,
    /// When the shown animation frame is to be replaced.
    pub anim_due: Option<u64>,
    /// When flipbook playback was last advanced.
    pub last_tick: Option<u64>,
    pub pump: Pump,
    pub caret: bool,
    pub dialog: Option<Dialog>,
    pub dialog_running: bool,
    /// The window asked to be closed.
    pub close: bool,
    /// The full-screen state at the last look.
    pub fullscreen_seen: bool,
    /// The settings window is up.
    pub settings_open: bool,
    /// A popup menu is up.
    pub menu_open: bool,
}

/// A viewer window in the abstract.
#[verifier::ext_equal]
pub struct Session {
    pub id: u64,
    pub scene: Scene,
    pub frames: Seq<u32>,
    pub frame: int,
    pub books: Map<Seq<char>, PerPath>,
    pub folder: Option<(Seq<String>, int)>,
    pub current: Option<Seq<char>>,
    pub shown: Option<Seq<char>>,
    pub loading: bool,
    pub label: Seq<char>,
    pub meta: Seq<char>,
    pub awaited: Awaited,
    pub anim_due: Option<u64>,
    pub last_tick: Option<u64>,
    pub pump: Pump,
    pub caret: bool,
    pub dialog: Option<Dialog>,
    pub dialog_running: bool,
    pub close: bool,
    pub fullscreen_seen: bool,
    pub settings_open: bool,
    pub menu_open: bool,
}

/// The queue of timers in the abstract.
#[verifier::ext_equal]
pub struct Line {
    pub pending: Set<crate::timers::Timer>,
    pub last: u64,
}

pub open spec fn line(q: TimerQueue) -> Line {
    Line { pending: q.pending(), last: q.last_seq() }
}

pub open spec fn text_view(t: Option<String>) -> Option<Seq<char>> {
    match t {
        Some(s) => Some(s@),
        None => None,
    }
}

/// The delays of an animation; a still image has none.
pub open spec fn delay_list(d: Option<Vec<u32>>) -> Seq<u32> {
    match d {
        Some(v) => v@,
        None => Seq::<u32>::empty(),
    }
}

pub open spec fn folder_view(f: Option<Folder>) -> Option<(Seq<String>, int)> {
    match f {
        Some(f) => Some((f.paths(), f.cursor())),
        None => None,
    }
}

impl View for Viewer {
    type V = Session;

    open spec fn view(&self) -> Session {
        Session {
            id: self.id,
            scene: self.scene,
            frames: self.anim.frames(),
            frame: self.anim.at(),
            books: self.books.map(),
            folder: folder_view(self.folder),
            current: text_view(self.current),
            shown: text_view(self.shown),
            loading: self.loading,
            label: self.label@,
            meta: self.meta@,
            awaited: self.awaited,
            anim_due: self.anim_due,
            last_tick: self.last_tick,
            pump: self.pump,
            caret: self.caret,
            dialog: self.dialog,
            dialog_running: self.dialog_running,
            close: self.close,
            fullscreen_seen: self.fullscreen_seen,
            settings_open: self.settings_open,
            menu_open: self.menu_open,
        }
    }
}

/// A window that has just been made.
pub open spec fn fresh_session(id: u64, fit_upscale: bool) -> Session {
    Session {
        id,
        scene: crate::scene::fresh_scene(fit_upscale),
        frames: Seq::empty(),
        frame: 0,
        books: Map::empty(),
        folder: None,
        current: None,
        shown: None,
        loading: false,
        label: Seq::empty(),
        meta: Seq::empty(),
        awaited: Awaited { anim: None, flipbook: None, caret: None },
        anim_due: None,
        last_tick: None,
        pump: Pump { wanted: 0 },
        caret: false,
        dialog: None,
        dialog_running: false,
        close: false,
        fullscreen_seen: false,
        settings_open: false,
        menu_open: false,
    }
}

/// The window after a repaint was asked for.
pub open spec fn redrawn(s: Session) -> Session {
    Session { pump: Pump { wanted: crate::playback::owed(s.pump.wanted, 2) }, ..s }
}

/// The window after it began to load an image: the one on the surface stays until the new one
/// lands.
pub open spec fn loading(s: Session, path: Seq<char>, generation: u64) -> Session {
    redrawn(
        Session {
            label: crate::status::shown_name(path),
            meta: Seq::empty(),
            loading: true,
            scene: Scene { generation, ..s.scene },
            current: Some(path),
            ..s
        },
    )
}

/// The window after an open request: the folder cursor is gone until the new scan lands.
pub open spec fn opened(s: Session, path: Seq<char>, generation: u64) -> Session {
    loading(Session { folder: None, ..s }, path, generation)
}

/// The window after the launch path was adopted, whose decode is already under way.
pub open spec fn adopted(s: Session, path: Seq<char>, generation: u64) -> Session {
    Session {
        label: crate::status::shown_name(path),
        loading: true,
        scene: Scene { generation, ..s.scene },
        current: Some(path),
        ..s
    }
}

/// Whether a change of the file on disk reloads the image.
pub open spec fn reloads(s: Session, generation: u64) -> bool {
    generation == s.scene.generation && s.current is Some
}

/// The window after its image began to be decoded again.
pub open spec fn reloaded(s: Session, fresh: u64) -> Session {
    Session { scene: Scene { generation: fresh, ..s.scene }, ..s }
}

/// Whether there is anywhere to page to.
pub open spec fn can_page(s: Session) -> bool {
    s.folder matches Some(f) && f.0.len() > 1
}

/// The window after paging by `delta`.
pub open spec fn paged(s: Session, delta: int, generation: u64) -> Session {
    let f = s.folder->0;
    let at = crate::folder::wrapped(f.1, delta, f.0.len() as int);
    loading(Session { folder: Some((f.0, at)), ..s }, f.0[at]@, generation)
}

/// `f` is the cursor over a scan's entries that stands at `path`.
pub open spec fn is_cursor(f: Option<(Seq<String>, int)>, entries: Seq<String>, path: Seq<char>) -> bool {
    let key = crate::folder::name_key(path);
    &&& f is Some <==> key is Some && exists|k: int|
        0 <= k < entries.len() && crate::folder::name_key((#[trigger] entries[k])@) == key
    &&& f matches Some(c) ==> {
        &&& c.0 == entries
        &&& 0 <= c.1 < entries.len()
        &&& crate::folder::name_key(entries[c.1]@) == key
        &&& forall|k: int| 0 <= k < c.1 ==> crate::folder::name_key((#[trigger] entries[k])@) != key
    }
}

/// What becomes of a finished decode.
pub open spec fn verdict(s: Session, generation: u64, dims: (u32, u32), reload: bool) -> Verdict {
    if generation != s.scene.generation {
        Verdict::Stale
    } else if reload && (s.scene.shown matches Some(p) && (p.width, p.height) == dims) {
        Verdict::KeepView
    } else {
        Verdict::Fresh
    }
}

/// The window and the timers after the animation timer was set to the frame shown.
pub open spec fn anim_synced(s: Session, q: Line, now: u64) -> (Session, Line) {
    match crate::playback::shown_delay(s.frames, s.frame) {
        Some(delay) => {
            let at = crate::playback::deadline(now, delay) as u64;
            (
                Session {
                    anim_due: Some(at),
                    awaited: Awaited { anim: Some((q.last + 1) as u64), ..s.awaited },
                    ..s
                },
                armed(q, s.id, TimerKind::Anim, at),
            )
        },
        None => (
            Session { anim_due: None, awaited: Awaited { anim: None, ..s.awaited }, ..s },
            q,
        ),
    }
}

/// The timers after one was armed.
pub open spec fn armed(q: Line, window: u64, kind: TimerKind, at: u64) -> Line {
    let seq = (q.last + 1) as u64;
    Line {
        pending: q.pending.insert(crate::timers::Timer { at, seq, window, kind }),
        last: seq,
    }
}

/// The flipbook state of the image shown, while the mode is on.
pub open spec fn active(s: Session) -> Option<crate::flipbook::FlipbookState> {
    match s.shown {
        Some(path) => crate::playback::active_state(crate::playback::book_of(s.books, path)),
        None => None,
    }
}

/// The window and the timers after the flipbook timer was set to the state.
pub open spec fn flip_synced(s: Session, q: Line, now: u64) -> (Session, Line) {
    if crate::playback::is_playing(active(s)) {
        (
            Session {
                last_tick: match s.last_tick {
                    Some(t) => Some(t),
                    None => Some(now),
                },
                awaited: Awaited { flipbook: Some((q.last + 1) as u64), ..s.awaited },
                ..s
            },
            armed(q, s.id, TimerKind::Flipbook, (now + FLIPBOOK_TICK_MS) as u64),
        )
    } else {
        (
            Session {
                last_tick: None,
                awaited: Awaited { flipbook: None, ..s.awaited },
                ..s
            },
            q,
        )
    }
}

/// The window with the flipbook state of its image on the surface.
pub open spec fn with_params(s: Session) -> Session {
    Session {
        scene: Scene { flipbook: crate::playback::surface_params(active(s)), ..s.scene },
        ..s
    }
}

/// The window and the timers after its flipbook state was applied.
pub open spec fn flip_applied(s: Session, q: Line, now: u64) -> (Session, Line) {
    let (t, r) = flip_synced(with_params(s), q, now);
    (redrawn(t), r)
}

/// The window and the timers after a decoded image went to the surface.
pub open spec fn landed(
    s: Session,
    q: Line,
    now: u64,
    path: Seq<char>,
    picture: Picture,
    frames: Seq<u32>,
    meta: Seq<char>,
    keep: bool,
) -> (Session, Line) {
    let adopted = redrawn(
        Session {
            loading: false,
            label: crate::status::shown_name(path),
            meta,
            scene: if keep {
                crate::scene::with_reloaded(s.scene, picture)
            } else {
                crate::scene::with_image(s.scene, picture)
            },
            frames,
            frame: 0,
            shown: Some(path),
            ..s
        },
    );
    let (t, r) = anim_synced(adopted, q, now);
    flip_applied(t, r, now)
}

/// The window with nothing shown: no image, no playback, no transport.
pub open spec fn emptied(s: Session) -> Session {
    redrawn(
        Session {
            shown: None,
            scene: Scene { shown: None, flipbook: None, ..s.scene },
            frames: Seq::empty(),
            frame: 0,
            anim_due: None,
            last_tick: None,
            awaited: Awaited { anim: None, flipbook: None, ..s.awaited },
            ..s
        },
    )
}

/// The window after a load failed: the reason stands in the status bar.
pub open spec fn failed(s: Session, path: Seq<char>, reason: Seq<char>) -> Session {
    emptied(
        Session { loading: false, label: crate::status::shown_name(path), meta: reason, ..s },
    )
}

/// Nothing is shown and nothing is on its way.
pub open spec fn is_empty(s: Session) -> bool {
    s.scene.shown is None && !s.loading
}

/// The window after its image was closed under a fresh generation.
pub open spec fn closed_image(s: Session, generation: u64) -> Session {
    emptied(
        Session {
            scene: Scene { generation, ..s.scene },
            current: None,
            folder: None,
            label: Seq::empty(),
            meta: Seq::empty(),
            loading: false,
            ..s
        },
    )
}

/// The window after a detection landed.
pub open spec fn guessed(s: Session, q: Line, now: u64, path: Seq<char>, guess: Option<Grid>) -> (
    Session,
    Line,
) {
    let book = crate::playback::book_of(s.books, path);
    flip_applied(
        Session { books: s.books.insert(path, PerPath { hint: guess, ..book }), ..s },
        q,
        now,
    )
}

/// Whether flipbook mode can be switched: it takes a still image on the surface.
pub open spec fn can_toggle(s: Session) -> bool {
    s.scene.shown is Some && crate::playback::shown_delay(s.frames, s.frame) is None && s.shown
        is Some
}

/// The window with the settings of the shown image replaced.
pub open spec fn with_book(s: Session, book: PerPath) -> Session {
    Session { books: s.books.insert(s.shown->0, book), ..s }
}

/// The window after flipbook mode was switched.
pub open spec fn switched(s: Session, d: FlipbookCfg, q: Line, now: u64) -> (Session, Line) {
    if can_toggle(s) {
        flip_applied(
            with_book(
                s,
                crate::playback::toggled(crate::playback::book_of(s.books, s.shown->0), d),
            ),
            q,
            now,
        )
    } else {
        (s, q)
    }
}

/// The flipbook settings that an edit of the transport reaches, whether the mode is on or not.
pub open spec fn editable(s: Session) -> Option<crate::flipbook::FlipbookState> {
    match s.shown {
        Some(path) => crate::playback::book_of(s.books, path).state,
        None => None,
    }
}

/// The window after an edit of the transport left the state `t`.
pub open spec fn edit_applied(
    s: Session,
    q: Line,
    now: u64,
    t: crate::flipbook::FlipbookState,
    reach: EditReach,
) -> (Session, Line) {
    edit_shown(
        with_book(
            s,
            PerPath { state: Some(t), ..crate::playback::book_of(s.books, s.shown->0) },
        ),
        q,
        now,
        reach,
    )
}

/// The window after an edit of the transport went to the surface.
pub open spec fn edit_shown(s: Session, q: Line, now: u64, reach: EditReach) -> (Session, Line) {
    match reach {
        EditReach::Grid => {
            let (u, r) = flip_applied(s, q, now);
            (redrawn(u), r)
        },
        EditReach::Position => (redrawn(positioned(s)), q),
        EditReach::Params => {
            let (u, r) = flip_synced(with_params(s), q, now);
            (redrawn(u), r)
        },
    }
}

/// The window with the playback position of its state on the surface.
pub open spec fn positioned(s: Session) -> Session {
    match (active(s), s.scene.flipbook) {
        (Some(t), Some(fb)) => Session {
            scene: Scene {
                flipbook: Some(
                    crate::scene::FlipbookParams { frame_pos: t.frame_pos, ..fb },
                ),
                ..s.scene
            },
            ..s
        },
        _ => s,
    }
}

/// The window after playback was advanced to the state `t`.
pub open spec fn advanced(s: Session, now: u64, t: crate::flipbook::FlipbookState) -> Session {
    positioned(
        Session {
            last_tick: Some(now),
            ..with_book(
                s,
                PerPath { state: Some(t), ..crate::playback::book_of(s.books, s.shown->0) },
            )
        },
    )
}

/// The clock and the timer numbers are far enough from their limits for `n` more timers.
pub open spec fn has_room(q: Line, now: u64, n: int) -> bool {
    q.last <= u64::MAX - n && now < u64::MAX - 0x2_0000_0000
}

fn copied(s: &str) -> (r: String)
    ensures
        r@ == s@,
{
    let mut r = String::new();
    r.append(s);
    assert(r@ =~= s@);
    r
}

fn is_path(t: &Option<String>, path: &str) -> (r: bool)
    ensures
        r == (text_view(*t) == Some(path@)),
{
    match t {
        Some(s) => same_text(s.as_str(), path),
        None => false,
    }
}

impl Viewer {
    /// A window that has just been made.
    pub fn new(id: u64, fit_upscale: bool) -> (v: Self)
        ensures
            v@ == fresh_session(id, fit_upscale),
    {
        let v = Viewer {
            id,
            scene: Scene::new(fit_upscale),
            anim: AnimState::new(),
            books: Books::new(),
            folder: None,
            current: None,
            shown: None,
            loading: false,
            label: String::new(),
            meta: String::new(),
            awaited: Awaited::none(),
            anim_due: None,
            last_tick: None,
            pump: Pump { wanted: 0 },
            caret: false,
            dialog: None,
            dialog_running: false,
            close: false,
            fullscreen_seen: false,
            settings_open: false,
            menu_open: false,
        };
        assert(v@ =~= fresh_session(id, fit_upscale));
        v
    }

    /// Ask for the everyday repaint.
    pub fn redraw(&mut self)
        ensures
            final(self)@ == redrawn(old(self)@),
    {
        self.pump.request_frames(2);
        assert(self@ =~= redrawn(old(self)@));
    }

    /// Adopt the launch path, whose decode was submitted before the window existed.
    pub fn adopt_initial(&mut self, init: &Initial)
        ensures
            final(self)@ == adopted(old(self)@, init.path@, init.generation),
    {
        self.label = file_name(init.path.as_str());
        self.loading = true;
        self.scene.generation = init.generation;
        self.current = Some(copied(init.path.as_str()));
        assert(self@ =~= adopted(old(self)@, init.path@, init.generation));
    }

    /// Begin to load `path` under a fresh generation.
    fn load(&mut self, path: &str, generation: u64)
        ensures
            final(self)@ == loading(old(self)@, path@, generation),
    {
        self.label = file_name(path);
        self.meta = String::new();
        self.loading = true;
        self.scene.generation = generation;
        self.current = Some(copied(path));
        self.pump.request_frames(2);
        assert(self.meta@ =~= Seq::<char>::empty());
        assert(self@ =~= loading(old(self)@, path@, generation));
    }

    /// Open an image: load it and forget the folder, which is scanned anew.
    pub fn open(&mut self, path: &str, generation: u64)
        ensures
            final(self)@ == opened(old(self)@, path@, generation),
    {
        self.folder = None;
        let ghost s = self@;
        assert(s =~= (Session { folder: None, ..old(self)@ }));
        self.load(path, generation);
    }

    /// The file changed on disk. Gives the path to decode again under `fresh`; none where the
    /// report is of an earlier image or no image is open.
    pub fn reload(&mut self, generation: u64, fresh: u64) -> (r: Option<String>)
        ensures
            reloads(old(self)@, generation) ==> {
                &&& final(self)@ == reloaded(old(self)@, fresh)
                &&& text_view(r) == old(self)@.current
            },
            !reloads(old(self)@, generation) ==> r is None && final(self)@ == old(self)@,
    {
        if generation != self.scene.generation {
            return None;
        }
        match &self.current {
            Some(path) => {
                let path = copied(path.as_str());
                self.scene.generation = fresh;
                assert(self@ =~= reloaded(old(self)@, fresh));
                Some(path)
            },
            None => None,
        }
    }

    /// Page to a sibling image. Gives the path to decode under `generation`; none where there is
    /// nowhere to page to.
    pub fn navigate(&mut self, delta: isize, generation: u64) -> (r: Option<String>)
        ensures
            can_page(old(self)@) ==> {
                &&& final(self)@ == paged(old(self)@, delta as int, generation)
                &&& text_view(r) == final(self)@.current
            },
            !can_page(old(self)@) ==> r is None && final(self)@ == old(self)@,
    {
        let mut taken: Option<Folder> = None;
        std::mem::swap(&mut taken, &mut self.folder);
        match taken {
            Some(mut f) => {
                if f.len() > 1 {
                    let path = f.advance(delta);
                    self.folder = Some(f);
                    let ghost s = self@;
                    proof {
                        let was = old(self)@.folder->0;
                        let at = crate::folder::wrapped(was.1, delta as int, was.0.len() as int);
                        assert(s =~= (Session { folder: Some((was.0, at)), ..old(self)@ }));
                    }
                    self.load(path.as_str(), generation);
                    Some(path)
                } else {
                    self.folder = Some(f);
                    assert(self@ =~= old(self)@);
                    None
                }
            },
            None => {
                assert(self@ =~= old(self)@);
                None
            },
        }
    }

    /// Adopt a finished scan of a folder, unless another image was opened since. A
    /// reload of the same image does not make it stale.
    pub fn folder_scanned(&mut self, scan: FolderScan)
        ensures
            old(self)@.current != Some(scan.path@) ==> final(self)@ == old(self)@,
            old(self)@.current == Some(scan.path@) ==> {
                &&& final(self)@ == redrawn(
                    Session { folder: final(self)@.folder, ..old(self)@ },
                )
                &&& is_cursor(final(self)@.folder, scan.entries@, scan.path@)
            },
    {
        if !is_path(&self.current, scan.path.as_str()) {
            return;
        }
        self.folder = Folder::new(scan.entries, scan.path.as_str());
        self.pump.request_frames(2);
        assert(self@ =~= redrawn(Session { folder: self@.folder, ..old(self)@ }));
    }

    /// What becomes of a finished decode.
    pub fn decode_verdict(&self, generation: u64, width: u32, height: u32, reload: bool) -> (r:
        Verdict)
        ensures
            r == verdict(self@, generation, (width, height), reload),
    {
        if generation != self.scene.generation {
            return Verdict::Stale;
        }
        let same = match self.scene.shown {
            Some(p) => p.width == width && p.height == height,
            None => false,
        };
        if reload && same {
            Verdict::KeepView
        } else {
            Verdict::Fresh
        }
    }

    /// Set the animation timer to the frame shown, or stop it.
    pub fn sync_animation(&mut self, queue: &mut TimerQueue, now: u64)
        requires
            has_room(line(*old(queue)), now, 1),
        ensures
            (final(self)@, line(*final(queue))) == anim_synced(
                old(self)@,
                line(*old(queue)),
                now,
            ),
    {
        match self.anim.delay_ms() {
            Some(delay) => {
                let at = anim_deadline(now, delay);
                self.anim_due = Some(at);
                self.awaited.arm(queue, self.id, TimerKind::Anim, at);
            },
            None => {
                self.anim_due = None;
                self.awaited.kill(TimerKind::Anim);
            },
        }
        proof {
            let (s, q) = anim_synced(old(self)@, line(*old(queue)), now);
            assert(self@ =~= s);
            assert(line(*queue) =~= q);
        }
    }

    /// The flipbook state of the image shown, while the mode is on. Everything of it is in range.
    pub fn flipbook_state(&self) -> (r: Option<crate::flipbook::FlipbookState>)
        ensures
            r == active(self@),
            r matches Some(s) ==> crate::flipbook::is_settled(s),
    {
        match &self.shown {
            Some(path) => self.books.get(path.as_str()).active(),
            None => None,
        }
    }

    /// Whether a frame drawn now differs from the last.
    pub fn flipbook_playing(&self) -> (r: bool)
        ensures
            r == crate::playback::is_playing(active(self@)),
    {
        match self.flipbook_state() {
            Some(s) => s.playing && s.frame_count > 1,
            None => false,
        }
    }

    /// Set the flipbook timer to the state: paused or off means none.
    pub fn sync_flipbook_timer(&mut self, queue: &mut TimerQueue, now: u64)
        requires
            has_room(line(*old(queue)), now, 1),
        ensures
            (final(self)@, line(*final(queue))) == flip_synced(
                old(self)@,
                line(*old(queue)),
                now,
            ),
    {
        if self.flipbook_playing() {
            if self.last_tick.is_none() {
                self.last_tick = Some(now);
            }
            self.awaited.arm(queue, self.id, TimerKind::Flipbook, now + FLIPBOOK_TICK_MS);
        } else {
            self.last_tick = None;
            self.awaited.kill(TimerKind::Flipbook);
        }
        proof {
            let (s, q) = flip_synced(old(self)@, line(*old(queue)), now);
            assert(self@ =~= s);
            assert(line(*queue) =~= q);
        }
    }

    /// Put the flipbook state of the image shown on the surface, or clear it, and set its timer.
    pub fn apply_flipbook(&mut self, queue: &mut TimerQueue, now: u64) -> (framing: Framing)
        requires
            has_room(line(*old(queue)), now, 1),
        ensures
            (final(self)@, line(*final(queue))) == flip_applied(
                old(self)@,
                line(*old(queue)),
                now,
            ),
            framing == crate::scene::refit(
                old(self)@.scene,
                crate::playback::surface_params(active(old(self)@)),
            ),
    {
        let params = surface_flipbook(self.flipbook_state());
        let framing = self.scene.set_flipbook(params);
        assert(self@ =~= with_params(old(self)@));
        self.sync_flipbook_timer(queue, now);
        self.redraw();
        framing
    }

    /// A decoded image went to the surface: show it, play it if it is animated, and restore its
    /// flipbook settings. Gives what the view owes the image and then its flipbook.
    pub fn decode_landed(
        &mut self,
        path: &str,
        picture: Picture,
        delays: Option<Vec<u32>>,
        meta: String,
        keep: bool,
        fit: bool,
        queue: &mut TimerQueue,
        now: u64,
    ) -> (framing: (Option<Framing>, Framing))
        requires
            has_room(line(*old(queue)), now, 2),
        ensures
            (final(self)@, line(*final(queue))) == landed(
                old(self)@,
                line(*old(queue)),
                now,
                path@,
                picture,
                delay_list(delays),
                meta@,
                keep,
            ),
            framing.0 == Some(
                if keep {
                    if fit {
                        Framing::Keep
                    } else {
                        Framing::ClampPan
                    }
                } else if old(self)@.scene.prefs.open_actual_size {
                    Framing::ActualSize
                } else {
                    Framing::Fit { upscale: false }
                },
            ),
            framing.1 == crate::scene::refit(
                if keep {
                    crate::scene::with_reloaded(old(self)@.scene, picture)
                } else {
                    crate::scene::with_image(old(self)@.scene, picture)
                },
                final(self)@.scene.flipbook,
            ),
    {
        let ghost frames = delay_list(delays);
        let ghost m = meta@;
        self.loading = false;
        self.label = file_name(path);
        self.meta = meta;
        let first = if keep {
            self.scene.replace_image_keep_view(picture, true, fit)
        } else {
            self.scene.set_image(picture, true)
        };
        self.anim.adopt(delays);
        self.shown = Some(copied(path));
        self.redraw();
        proof {
            let s = redrawn(
                Session {
                    loading: false,
                    label: crate::status::shown_name(path@),
                    meta: m,
                    scene: if keep {
                        crate::scene::with_reloaded(old(self)@.scene, picture)
                    } else {
                        crate::scene::with_image(old(self)@.scene, picture)
                    },
                    frames,
                    frame: 0,
                    shown: Some(path@),
                    ..old(self)@
                },
            );
            assert(self@ =~= s);
        }
        self.sync_animation(queue, now);
        let second = self.apply_flipbook(queue, now);
        (first, second)
    }

    /// Show nothing: no image, no playback, no transport.
    fn reset_to_empty(&mut self)
        ensures
            final(self)@ == emptied(old(self)@),
    {
        self.shown = None;
        self.scene.clear_image();
        self.anim.clear();
        self.anim_due = None;
        self.awaited.kill(TimerKind::Anim);
        self.last_tick = None;
        self.awaited.kill(TimerKind::Flipbook);
        self.pump.request_frames(2);
        assert(self@ =~= emptied(old(self)@));
    }

    /// A load failed, in the decoder or on the way to the surface: the image that was shown goes,
    /// and the reason stands in the status bar.
    pub fn fail_load(&mut self, path: &str, reason: String)
        ensures
            final(self)@ == failed(old(self)@, path@, reason@),
    {
        let ghost why = reason@;
        self.loading = false;
        self.label = file_name(path);
        self.meta = reason;
        let ghost s = self@;
        assert(s =~= (Session {
            loading: false,
            label: crate::status::shown_name(path@),
            meta: why,
            ..old(self)@
        }));
        self.reset_to_empty();
    }

    /// Whether nothing is shown and nothing is on its way: the hint is drawn then.
    pub fn empty_view_active(&self) -> (r: bool)
        ensures
            r == is_empty(self@),
    {
        self.scene.shown.is_none() && !self.loading
    }

    /// Close the image and go back to the empty state. Whatever is still under way for it is made
    /// stale by the fresh generation. Tells whether there was anything to close.
    pub fn close_image(&mut self, fresh: u64) -> (closed: bool)
        ensures
            closed == !(old(self)@.current is None && is_empty(old(self)@)),
            closed ==> final(self)@ == closed_image(old(self)@, fresh),
            !closed ==> final(self)@ == old(self)@,
    {
        if self.current.is_none() && self.empty_view_active() {
            return false;
        }
        self.scene.generation = fresh;
        self.current = None;
        self.folder = None;
        self.label = String::new();
        self.meta = String::new();
        self.loading = false;
        let ghost s = self@;
        assert(self.meta@ =~= Seq::<char>::empty());
        assert(s =~= (Session {
            scene: Scene { generation: fresh, ..old(self)@.scene },
            current: None,
            folder: None,
            label: Seq::empty(),
            meta: Seq::empty(),
            loading: false,
            ..old(self)@
        }));
        self.reset_to_empty();
        true
    }

    /// A flipbook detection landed; one for an earlier image is dropped.
    pub fn flipbook_guess_done(
        &mut self,
        generation: u64,
        path: &str,
        guess: Option<Grid>,
        queue: &mut TimerQueue,
        now: u64,
    ) -> (framing: Option<Framing>)
        requires
            has_room(line(*old(queue)), now, 1),
        ensures
            generation != old(self)@.scene.generation ==> framing is None && final(self)@ == old(
                self,
            )@ && line(*final(queue)) == line(*old(queue)),
            generation == old(self)@.scene.generation ==> framing == Some(
                crate::scene::refit(old(self)@.scene, final(self)@.scene.flipbook),
            ) && (final(self)@, line(*final(queue))) == guessed(
                old(self)@,
                line(*old(queue)),
                now,
                path@,
                guess,
            ),
    {
        if generation != self.scene.generation {
            return None;
        }
        let mut book = self.books.get(path);
        book.hint = guess;
        self.books.set(path, book);
        proof {
            let was = crate::playback::book_of(old(self)@.books, path@);
            assert(self@ =~= (Session {
                books: old(self)@.books.insert(path@, PerPath { hint: guess, ..was }),
                ..old(self)@
            }));
        }
        Some(self.apply_flipbook(queue, now))
    }

    /// Switch flipbook mode for the image shown; a first time starts from the defaults.
    pub fn toggle_flipbook(
        &mut self,
        defaults: FlipbookCfg,
        queue: &mut TimerQueue,
        now: u64,
    ) -> (framing: Framing)
        requires
            has_room(line(*old(queue)), now, 1),
        ensures
            (final(self)@, line(*final(queue))) == switched(
                old(self)@,
                defaults,
                line(*old(queue)),
                now,
            ),
            framing == crate::scene::refit(old(self)@.scene, final(self)@.scene.flipbook),
    {
        if self.scene.shown.is_none() || self.anim.delay_ms().is_some() {
            return Framing::Keep;
        }
        let path = match &self.shown {
            Some(p) => copied(p.as_str()),
            None => {
                return Framing::Keep;
            },
        };
        let book = self.books.get(path.as_str()).toggle(defaults);
        self.books.set(path.as_str(), book);
        assert(self@ =~= with_book(
            old(self)@,
            crate::playback::toggled(
                crate::playback::book_of(old(self)@.books, old(self)@.shown->0),
                defaults,
            ),
        ));
        self.apply_flipbook(queue, now)
    }

    /// Answer the hint with no.
    pub fn dismiss_hint(&mut self)
        ensures
            old(self)@.shown is None ==> final(self)@ == redrawn(old(self)@),
            old(self)@.shown matches Some(path) ==> final(self)@ == redrawn(
                with_book(
                    old(self)@,
                    PerPath {
                        hint_dismissed: true,
                        ..crate::playback::book_of(old(self)@.books, path)
                    },
                ),
            ),
    {
        match &self.shown {
            Some(p) => {
                let path = copied(p.as_str());
                let mut book = self.books.get(path.as_str());
                book.hint_dismissed = true;
                self.books.set(path.as_str(), book);
            },
            None => {},
        }
        let ghost s = self@;
        proof {
            match old(self)@.shown {
                Some(path) => {
                    assert(s =~= with_book(
                        old(self)@,
                        PerPath {
                            hint_dismissed: true,
                            ..crate::playback::book_of(old(self)@.books, path)
                        },
                    ));
                },
                None => {
                    assert(s =~= old(self)@);
                },
            }
        }
        self.redraw();
    }

    /// The grid to offer in the hint.
    pub fn chip_hint(&self) -> (r: Option<Grid>)
        ensures
            self@.shown is None ==> r is None,
            self@.shown matches Some(path) ==> r == {
                let b = crate::playback::book_of(self@.books, path);
                if b.enabled || b.hint_dismissed {
                    None
                } else {
                    b.hint
                }
            },
    {
        match &self.shown {
            Some(path) => self.books.get(path.as_str()).chip_hint(),
            None => None,
        }
    }

    /// Apply an edit of the transport to the image shown. Nothing happens where it has no flipbook
    /// state.
    pub fn apply_transport_edit(&mut self, edit: TransportEdit, queue: &mut TimerQueue, now: u64) -> (
    framing: Framing)
        requires
            has_room(line(*old(queue)), now, 1),
            editable(old(self)@) matches Some(s) ==> crate::playback::edit_fits(s, edit),
        ensures
            framing == crate::scene::refit(old(self)@.scene, final(self)@.scene.flipbook),
            editable(old(self)@) is None ==> final(self)@ == old(self)@ && line(*final(queue))
                == line(*old(queue)),
            editable(old(self)@) matches Some(s) ==> {
                &&& editable(final(self)@) matches Some(t) && crate::playback::is_clamped(
                    crate::playback::edited(s, edit),
                    t,
                ) && (final(self)@, line(*final(queue))) == edit_applied(
                    old(self)@,
                    line(*old(queue)),
                    now,
                    t,
                    crate::playback::reach(edit),
                )
            },
    {
        let path = match &self.shown {
            Some(p) => copied(p.as_str()),
            None => {
                return Framing::Keep;
            },
        };
        let mut book = self.books.get(path.as_str());
        let state = match book.state {
            Some(s) => s,
            None => {
                return Framing::Keep;
            },
        };
        proof {
            crate::flipbook::lemma_cells_in_range(state.grid);
        }
        let (t, what) = apply_edit(state, edit);
        book.state = Some(t);
        self.books.set(path.as_str(), book);
        let ghost after = with_book(
            old(self)@,
            PerPath {
                state: Some(t),
                ..crate::playback::book_of(old(self)@.books, old(self)@.shown->0)
            },
        );
        assert(self@ =~= after);
        self.show_edit(what, queue, now)
    }

    /// Put an edited flipbook state on the surface, as far as the edit reaches.
    fn show_edit(&mut self, what: EditReach, queue: &mut TimerQueue, now: u64) -> (framing: Framing)
        requires
            has_room(line(*old(queue)), now, 1),
        ensures
            (final(self)@, line(*final(queue))) == edit_shown(
                old(self)@,
                line(*old(queue)),
                now,
                what,
            ),
            framing == crate::scene::refit(old(self)@.scene, final(self)@.scene.flipbook),
    {
        let framing = match what {
            EditReach::Grid => self.apply_flipbook(queue, now),
            EditReach::Position => {
                match self.flipbook_state() {
                    Some(s) => self.scene.set_flipbook_pos(s.frame_pos),
                    None => {},
                }
                assert(self@ =~= positioned(old(self)@));
                Framing::Keep
            },
            EditReach::Params => {
                let params = surface_flipbook(self.flipbook_state());
                let framing = self.scene.set_flipbook(params);
                assert(self@ =~= with_params(old(self)@));
                self.sync_flipbook_timer(queue, now);
                framing
            },
        };
        self.redraw();
        framing
    }

    /// Step the flipbook to the exact frame `delta` away, pausing playback.
    pub fn flipbook_step(&mut self, delta: i32, queue: &mut TimerQueue, now: u64)
        requires
            has_room(line(*old(queue)), now, 2),
        ensures
            active(old(self)@) is None ==> final(self)@ == old(self)@ && line(*final(queue))
                == line(*old(queue)),
            active(old(self)@) matches Some(s) ==> (active(final(self)@) matches Some(t)
                && !t.playing && crate::wrap::whole_part(t.frame_pos)
                == crate::playback::step_frame(s, delta as int) && t
                == (crate::flipbook::FlipbookState {
                playing: false,
                frame_pos: t.frame_pos,
                ..s
            }) && is_stepped(
                old(self)@,
                line(*old(queue)),
                now,
                s,
                t,
                (final(self)@, line(*final(queue))),
            )),
    {
        let s = match self.flipbook_state() {
            Some(s) => s,
            None => {
                return;
            },
        };
        let pos = stepped_position(s, delta);
        proof {
            assert(s.grid.cols * s.grid.rows <= 4096) by (nonlinear_arith)
                requires
                    1 <= s.grid.cols <= 64,
                    1 <= s.grid.rows <= 64,
            ;
        }
        let ghost mut mid = (self@, line(*queue));
        if s.playing {
            let _kept = self.apply_transport_edit(TransportEdit::TogglePlay, queue, now);
            proof {
                mid = (self@, line(*queue));
                let p = editable(self@)->0;
                lemma_pause(s, p);
                assert(is_paused(old(self)@, line(*old(queue)), now, s, p, mid));
            }
        }
        let ghost p = active(self@)->0;
        assert(p == (crate::flipbook::FlipbookState {
            playing: false,
            ..s
        }));
        let _moved = self.apply_transport_edit(TransportEdit::Scrub(pos), queue, now);
        proof {
            let t = editable(self@)->0;
            crate::playback::law_scrub_lands_on_frame(
                p,
                pos,
                crate::playback::step_frame(s, delta as int),
                t,
            );
        }
    }

    /// Advance playback to `to`, the position that the elapsed time leads to, wrapped around the
    /// loop. Tells whether anything plays.
    pub fn advance_flipbook(&mut self, to: Single, now: u64) -> (advanced_now: bool)
        ensures
            advanced_now == crate::playback::is_playing(active(old(self)@)),
            !advanced_now ==> final(self)@ == old(self)@,
            advanced_now ==> {
                let s = active(old(self)@)->0;
                &&& active(final(self)@) matches Some(t) && t
                    == (crate::flipbook::FlipbookState { frame_pos: t.frame_pos, ..s })
                    && crate::wrap::is_wrapped(to, s.frame_count as nat, t.frame_pos)
                    && final(self)@ == advanced(old(self)@, now, t)
            },
    {
        let path = match &self.shown {
            Some(p) => copied(p.as_str()),
            None => {
                return false;
            },
        };
        let mut book = self.books.get(path.as_str());
        let mut s = match book.active() {
            Some(s) => s,
            None => {
                return false;
            },
        };
        if !s.playing || s.frame_count <= 1 {
            return false;
        }
        let ghost before = s;
        proof {
            crate::flipbook::lemma_cells_in_range(s.grid);
        }
        let count = crate::ratio::as_single(s.frame_count);
        proof {
            crate::wrap::lemma_single_is_single(s.frame_count as nat, count as nat);
        }
        s.frame_pos = crate::wrap::wrapped(to, count);
        proof {
            crate::playback::law_playback_stays_on_loop(before, to, s.frame_pos);
        }
        book.state = Some(s);
        self.books.set(path.as_str(), book);
        self.last_tick = Some(now);
        self.scene.set_flipbook_pos(s.frame_pos);
        assert(self@ =~= advanced(old(self)@, now, s));
        true
    }

    /// The next frame of an animation was uploaded, or refused: wait for the one after.
    pub fn tick_animation(&mut self, uploaded: bool, queue: &mut TimerQueue, now: u64)
        requires
            has_room(line(*old(queue)), now, 1),
        ensures
            (final(self)@, line(*final(queue))) == anim_synced(
                Session {
                    frame: if uploaded && old(self)@.frames.len() > 1 {
                        crate::playback::next_index(
                            old(self)@.frames.len() as int,
                            old(self)@.frame,
                        )
                    } else {
                        old(self)@.frame
                    },
                    ..old(self)@
                },
                line(*old(queue)),
                now,
            ),
    {
        let _delay = self.anim.advance_frame(uploaded);
        assert(self@ =~= (Session { frame: self@.frame, ..old(self)@ }));
        self.sync_animation(queue, now);
    }

    /// Whether the animation frame shown has had its time.
    pub fn anim_is_due(&self, now: u64) -> (r: bool)
        ensures
            r == (self@.anim_due matches Some(at) && now >= at),
    {
        match self.anim_due {
            Some(at) => now >= at,
            None => false,
        }
    }

    /// A timer fell due. Tells whether it is the one awaited; the caret's asks for a frame and,
    /// while a field is edited, for the next blink.
    pub fn on_timer(&mut self, kind: TimerKind, seq: u64, queue: &mut TimerQueue, now: u64) -> (r: bool)
        requires
            has_room(line(*old(queue)), now, 1),
        ensures
            r == (crate::playback::awaited(old(self)@.awaited, kind) == Some(seq)),
            !r ==> final(self)@ == old(self)@ && line(*final(queue)) == line(*old(queue)),
            r && kind != TimerKind::Caret ==> final(self)@ == (Session {
                awaited: crate::playback::awaiting(old(self)@.awaited, kind, None),
                ..old(self)@
            }) && line(*final(queue)) == line(*old(queue)),
            r && kind == TimerKind::Caret ==> (final(self)@, line(*final(queue))) == blinked(
                old(self)@,
                line(*old(queue)),
                now,
            ),
    {
        if !self.awaited.take(kind, seq) {
            return false;
        }
        match kind {
            TimerKind::Caret => {
                self.pump.request_frames(1);
                if self.caret {
                    self.awaited.arm(queue, self.id, TimerKind::Caret, now + CARET_BLINK_MS);
                }
                proof {
                    let (s, q) = blinked(old(self)@, line(*old(queue)), now);
                    assert(self@ =~= s);
                    assert(line(*queue) =~= q);
                }
            },
            _ => {
                assert(self@ =~= (Session {
                    awaited: crate::playback::awaiting(old(self)@.awaited, kind, None),
                    ..old(self)@
                }));
            },
        }
        true
    }

    /// Start or stop the caret's blinking as a text field is entered or left.
    pub fn sync_caret_timer(&mut self, want: bool, queue: &mut TimerQueue, now: u64)
        requires
            has_room(line(*old(queue)), now, 1),
        ensures
            want == old(self)@.caret ==> final(self)@ == old(self)@ && line(*final(queue)) == line(
                *old(queue),
            ),
            want && !old(self)@.caret ==> final(self)@ == (Session {
                caret: true,
                awaited: Awaited {
                    caret: Some((old(queue).last_seq() + 1) as u64),
                    ..old(self)@.awaited
                },
                ..old(self)@
            }) && line(*final(queue)) == armed(
                line(*old(queue)),
                old(self)@.id,
                TimerKind::Caret,
                (now + CARET_BLINK_MS) as u64,
            ),
            !want && old(self)@.caret ==> final(self)@ == (Session {
                caret: false,
                awaited: Awaited { caret: None, ..old(self)@.awaited },
                ..old(self)@
            }) && line(*final(queue)) == line(*old(queue)),
    {
        if want == self.caret {
            return;
        }
        self.caret = want;
        if want {
            self.awaited.arm(queue, self.id, TimerKind::Caret, now + CARET_BLINK_MS);
            assert(line(*queue) =~= armed(
                line(*old(queue)),
                old(self)@.id,
                TimerKind::Caret,
                (now + CARET_BLINK_MS) as u64,
            ));
        } else {
            self.awaited.kill(TimerKind::Caret);
        }
        assert(want ==> self@ =~= (Session {
            caret: true,
            awaited: Awaited {
                caret: Some((old(queue).last_seq() + 1) as u64),
                ..old(self)@.awaited
            },
            ..old(self)@
        }));
        assert(!want ==> self@ =~= (Session {
            caret: false,
            awaited: Awaited { caret: None, ..old(self)@.awaited },
            ..old(self)@
        }));
    }

    /// The window's full-screen state, looked at when the loop is idle: a change that nobody asked
    /// for is repainted.
    pub fn sync_fullscreen(&mut self, fullscreen: bool)
        ensures
            fullscreen == old(self)@.fullscreen_seen ==> final(self)@ == old(self)@,
            fullscreen != old(self)@.fullscreen_seen ==> final(self)@ == redrawn(
                Session { fullscreen_seen: fullscreen, ..old(self)@ },
            ),
    {
        if fullscreen != self.fullscreen_seen {
            self.fullscreen_seen = fullscreen;
            let ghost s = self@;
            assert(s =~= (Session { fullscreen_seen: fullscreen, ..old(self)@ }));
            self.redraw();
        }
    }

    /// Ask for a dialog. It is run when the loop is idle.
    pub fn want_dialog(&mut self, dialog: Dialog)
        ensures
            final(self)@ == (Session { dialog: Some(dialog), ..old(self)@ }),
    {
        self.dialog = Some(dialog);
        assert(self@ =~= (Session { dialog: Some(dialog), ..old(self)@ }));
    }

    /// Take the dialog that is to be run now: one at a time, so a request while one is up is
    /// dropped.
    pub fn take_dialog(&mut self) -> (r: Option<Dialog>)
        ensures
            r == if old(self)@.dialog_running {
                None
            } else {
                old(self)@.dialog
            },
            final(self)@ == (Session { dialog: None, ..old(self)@ }),
    {
        let wanted = self.dialog;
        self.dialog = None;
        assert(self@ =~= (Session { dialog: None, ..old(self)@ }));
        if self.dialog_running {
            None
        } else {
            wanted
        }
    }

    /// Note whether a dialog is up.
    pub fn dialog_up(&mut self, up: bool)
        ensures
            final(self)@ == (Session { dialog_running: up, ..old(self)@ }),
    {
        self.dialog_running = up;
        assert(self@ =~= (Session { dialog_running: up, ..old(self)@ }));
    }

    /// A dialog was answered, or cancelled. Says what is done with the answer; a program is of no
    /// use once the settings window is gone.
    pub fn dialog_done(&mut self, dialog: Dialog, picked: bool) -> (r: DialogOrder)
        ensures
            r == if !picked {
                DialogOrder::Nothing
            } else if dialog == Dialog::OpenImage {
                DialogOrder::Open
            } else if old(self)@.settings_open {
                DialogOrder::SetProgram
            } else {
                DialogOrder::Nothing
            },
            final(self)@ == (if picked && dialog == Dialog::BrowseProgram {
                redrawn(Session { dialog_running: false, ..old(self)@ })
            } else {
                Session { dialog_running: false, ..old(self)@ }
            }),
            r == dialog_order(dialog, picked, old(self)@.settings_open),
    {
        self.dialog_up(false);
        if !picked {
            return DialogOrder::Nothing;
        }
        match dialog {
            Dialog::OpenImage => DialogOrder::Open,
            Dialog::BrowseProgram => {
                self.redraw();
                if self.settings_open {
                    DialogOrder::SetProgram
                } else {
                    DialogOrder::Nothing
                }
            },
        }
    }

    /// The command that a key press leads to with the modifiers held. The flipbook's own keys win
    /// while its mode is on and do nothing outside it.
    pub fn handle_key(&self, binds: &Keybinds, key: KeyCode, held: Held, platform: Platform) -> (r:
        Option<KeyAction>)
        ensures
            exists|chord: KeyChord| #[trigger]
                is_chord(key, held, platform, chord) && r == crate::keybinds::looked_up(
                    binds.table(),
                    chord,
                    active(self@) is Some,
                ),
    {
        let pressed = chord(key, held, platform);
        assert(is_chord(key, held, platform, pressed));
        binds.lookup(pressed, self.flipbook_state().is_some())
    }

    /// Whether the transport band is shown: in flipbook mode, outside full screen.
    pub fn transport_visible(&self, fullscreen: bool) -> (r: bool)
        ensures
            r == (!fullscreen && active(self@) is Some),
    {
        !fullscreen && self.flipbook_state().is_some()
    }

    /// The snapshot that the chrome renders from.
    pub fn snapshot(
        &self,
        shortcuts: ShortcutLabels,
        look: Look,
        exposure: &str,
    ) -> (snap: ViewSnapshot)
        ensures
            snap.channel == self@.scene.display.channel,
            snap.fit == look.fit,
            snap.tonemap == self@.scene.display.tonemap,
            snap.is_hdr == crate::scene::shows_hdr(self@.scene),
            snap.has_image == (self@.scene.shown is Some),
            snap.loading == self@.loading,
            snap.has_alpha == crate::scene::shows_alpha(self@.scene),
            snap.background == self@.scene.prefs.background,
            snap.outline == self@.scene.prefs.outline,
            snap.octagon == (if self@.scene.prefs.octagon.enabled && self@.scene.shown is Some {
                Some(self@.scene.prefs.octagon)
            } else {
                None
            }),
            snap.mip_level == look.mip_level,
            snap.mip_count == look.mip_count,
            snap.can_navigate == can_page(self@),
            snap.fullscreen == look.fullscreen,
            snap.flipbook == (active(self@) is Some),
            snap.has_animation == (crate::playback::shown_delay(self@.frames, self@.frame) is Some),
            snap.shortcuts == shortcuts,
            snap.status_left@ == crate::status::left_text(
                self@.label,
                self@.meta,
                self@.loading,
                self@.scene.shown is Some,
            ),
            snap.status_right@ == crate::status::right_text(
                status_parts(self@, look),
                exposure@,
            ),
    {
        let folder = match &self.folder {
            Some(f) => Some((f.position(), f.len())),
            None => None,
        };
        let can_navigate = match &self.folder {
            Some(f) => f.len() > 1,
            None => false,
        };
        let image = match self.scene.shown {
            Some(p) => Some((p.width, p.height)),
            None => None,
        };
        let is_hdr = self.scene.is_hdr();
        let right = StatusRight {
            folder,
            image,
            mip_level: look.mip_level,
            mip_count: look.mip_count,
            is_hdr,
            zoom_percent: look.zoom_percent,
        };
        assert(right == status_parts(self@, look));
        ViewSnapshot {
            channel: self.scene.display.channel,
            fit: look.fit,
            tonemap: self.scene.display.tonemap,
            is_hdr,
            has_image: self.scene.shown.is_some(),
            loading: self.loading,
            has_alpha: self.scene.has_alpha(),
            background: self.scene.prefs.background,
            outline: self.scene.prefs.outline,
            octagon: if self.scene.prefs.octagon.enabled && self.scene.shown.is_some() {
                Some(self.scene.prefs.octagon)
            } else {
                None
            },
            can_navigate,
            fullscreen: look.fullscreen,
            flipbook: self.flipbook_state().is_some(),
            has_animation: self.anim.delay_ms().is_some(),
            mip_level: look.mip_level,
            mip_count: look.mip_count,
            shortcuts,
            status_left: status_left(
                self.label.as_str(),
                self.meta.as_str(),
                self.loading,
                self.scene.shown.is_some(),
            ),
            status_right: status_right(right, exposure),
        }
    }
}

/// `mid` is what is left after playback of `s` was paused, leaving the state `p`.
pub open spec fn is_paused(
    s: Session,
    q: Line,
    now: u64,
    state: crate::flipbook::FlipbookState,
    p: crate::flipbook::FlipbookState,
    mid: (Session, Line),
) -> bool {
    crate::playback::is_clamped(crate::playback::edited(state, TransportEdit::TogglePlay), p)
        && mid == edit_applied(s, q, now, p, EditReach::Params)
}

/// `end` is what is left after a step from `state` to `t`: a pause where it played, then a scrub.
pub open spec fn is_stepped(
    s: Session,
    q: Line,
    now: u64,
    state: crate::flipbook::FlipbookState,
    t: crate::flipbook::FlipbookState,
    end: (Session, Line),
) -> bool {
    if state.playing {
        exists|p: crate::flipbook::FlipbookState, mid: (Session, Line)| #[trigger]
            is_paused(s, q, now, state, p, mid) && end == edit_applied(
                mid.0,
                mid.1,
                now,
                t,
                EditReach::Position,
            )
    } else {
        end == edit_applied(s, q, now, t, EditReach::Position)
    }
}

/// `c` is the chord of a key with the modifiers held.
pub open spec fn is_chord(key: KeyCode, held: Held, platform: Platform, c: KeyChord) -> bool {
    &&& c.key == key
    &&& c.primary == if platform == Platform::Mac {
        held.command
    } else {
        held.control
    }
    &&& c.alt == held.alt
    &&& c.shift == held.shift
}

/// What the view and the window add to a snapshot.
#[derive(Debug, Clone, Copy, PartialEq, Eq, Structural)]
pub struct Look {
    pub fit: bool,
    pub fullscreen: bool,
    pub zoom_percent: u32,
    pub mip_level: u32,
    pub mip_count: u32,
}

/// What the right of the status bar is made of.
pub open spec fn status_parts(s: Session, look: Look) -> StatusRight {
    StatusRight {
        folder: match s.folder {
            Some(f) => Some(((f.1 + 1) as usize, f.0.len() as usize)),
            None => None,
        },
        image: match s.scene.shown {
            Some(p) => Some((p.width, p.height)),
            None => None,
        },
        mip_level: look.mip_level,
        mip_count: look.mip_count,
        is_hdr: crate::scene::shows_hdr(s.scene),
        zoom_percent: look.zoom_percent,
    }
}

/// The window and the timers after the caret blinked.
pub open spec fn blinked(s: Session, q: Line, now: u64) -> (Session, Line) {
    let t = Session {
        pump: Pump { wanted: crate::playback::owed(s.pump.wanted, 1) },
        awaited: Awaited { caret: None, ..s.awaited },
        ..s
    };
    if s.caret {
        (
            Session { awaited: Awaited { caret: Some((q.last + 1) as u64), ..s.awaited }, ..t },
            armed(q, s.id, TimerKind::Caret, (now + CARET_BLINK_MS) as u64),
        )
    } else {
        (t, q)
    }
}

proof fn lemma_pause(s: crate::flipbook::FlipbookState, t: crate::flipbook::FlipbookState)
    requires
        crate::flipbook::is_settled(s),
        s.playing,
        crate::playback::is_clamped(
            crate::playback::edited(s, TransportEdit::TogglePlay),
            t,
        ),
    ensures
        t == (crate::flipbook::FlipbookState { playing: false, ..s }),
{
    crate::playback::law_clamping_settles(
        crate::playback::edited(s, TransportEdit::TogglePlay),
        t,
    );
}

/// A request overtakes every earlier one: whatever was decoded, detected or reported as changed
/// for another generation is dropped.
pub proof fn law_newer_request_wins(
    s: Session,
    path: Seq<char>,
    older: u64,
    newer: u64,
    dims: (u32, u32),
    reload: bool,
)
    requires
        older != newer,
    ensures
        verdict(loading(s, path, newer), older, dims, reload) == Verdict::Stale,
        !reloads(loading(s, path, newer), older),
        verdict(loading(s, path, newer), newer, dims, reload) != Verdict::Stale,
        reloads(loading(s, path, newer), newer),
{
}

/// A closed image does not come back: neither its decode, nor its scan, nor a change of its file
/// reaches the window any more.
pub proof fn law_closed_stays_closed(
    s: Session,
    older: u64,
    fresh: u64,
    dims: (u32, u32),
    reload: bool,
    path: Seq<char>,
)
    requires
        older != fresh,
    ensures
        verdict(closed_image(s, fresh), older, dims, reload) == Verdict::Stale,
        !reloads(closed_image(s, fresh), older),
        !reloads(closed_image(s, fresh), fresh),
        closed_image(s, fresh).current != Some(path),
        is_empty(closed_image(s, fresh)),
{
}

/// While an image loads, the one on the surface stays, and so does everything that is about it.
pub proof fn law_shown_image_stays_while_loading(s: Session, path: Seq<char>, generation: u64)
    ensures
        loading(s, path, generation).scene == (Scene { generation, ..s.scene }),
        loading(s, path, generation).shown == s.shown,
        loading(s, path, generation).books == s.books,
        active(loading(s, path, generation)) == active(s),
        editable(loading(s, path, generation)) == editable(s),
        !is_empty(loading(s, path, generation)),
{
}

/// A reload makes no scan stale: what it is told by is the path, which stays. The image shown, the
/// folder and the flipbook settings stay as well.
pub proof fn law_reload_keeps_scan(s: Session, fresh: u64)
    ensures
        reloaded(s, fresh).current == s.current,
        reloaded(s, fresh).folder == s.folder,
        reloaded(s, fresh).scene.shown == s.scene.shown,
        active(reloaded(s, fresh)) == active(s),
{
}

/// Paging there and back ends at the same place of the folder, with that image requested.
pub proof fn law_paging_undoes(s: Session, delta: int, g: u64, h: u64)
    requires
        can_page(s),
        0 <= (s.folder->0).1 < (s.folder->0).0.len(),
    ensures
        paged(paged(s, delta, g), -delta, h).folder == s.folder,
        paged(paged(s, delta, g), -delta, h).current == Some((s.folder->0).0[(s.folder->0).1]@),
{
    let f = s.folder->0;
    crate::folder::law_advance_undoes(f.1, delta, f.0.len() as int);
}

/// A failed load leaves nothing on the surface, and its reason in the status bar.
pub proof fn law_failure_shows_reason(s: Session, path: Seq<char>, reason: Seq<char>)
    requires
        reason.len() > 0,
    ensures
        failed(s, path, reason).scene.shown is None,
        active(failed(s, path, reason)) is None,
        crate::status::left_text(
            failed(s, path, reason).label,
            failed(s, path, reason).meta,
            failed(s, path, reason).loading,
            false,
        ) == crate::status::shown_name(path) + "   \u{b7}   "@ + reason,
{
}

/// A window without an image waits for no playback timer, so it costs nothing.
pub proof fn law_empty_window_waits_for_nothing(s: Session)
    ensures
        emptied(s).awaited.anim is None,
        emptied(s).awaited.flipbook is None,
        emptied(s).anim_due is None,
{
}

/// Flipbook settings survive closing the image and opening it again.
pub proof fn law_settings_survive_close(s: Session, path: Seq<char>, g: u64, h: u64)
    ensures
        crate::playback::book_of(opened(closed_image(s, g), path, h).books, path)
            == crate::playback::book_of(s.books, path),
{
}

/// A sheet that comes back to the surface is shown as it was left.
pub proof fn law_landing_restores_flipbook(
    s: Session,
    q: Line,
    now: u64,
    path: Seq<char>,
    picture: Picture,
    frames: Seq<u32>,
    meta: Seq<char>,
    keep: bool,
)
    ensures
        landed(s, q, now, path, picture, frames, meta, keep).0.scene.flipbook
            == crate::playback::surface_params(
            crate::playback::active_state(crate::playback::book_of(s.books, path)),
        ),
        landed(s, q, now, path, picture, frames, meta, keep).0.shown == Some(path),
        landed(s, q, now, path, picture, frames, meta, keep).0.books == s.books,
{
}

/// An edit of the transport reaches the settings of the image shown and of no other.
pub proof fn law_edits_stay_with_their_image(
    s: Session,
    q: Line,
    now: u64,
    t: crate::flipbook::FlipbookState,
    reach: EditReach,
    other: Seq<char>,
)
    requires
        s.shown is Some,
        other != s.shown->0,
    ensures
        crate::playback::book_of(edit_applied(s, q, now, t, reach).0.books, other)
            == crate::playback::book_of(s.books, other),
{
}

/// Playback that is paused waits for no timer.
pub proof fn law_paused_waits_for_nothing(s: Session, q: Line, now: u64)
    requires
        !crate::playback::is_playing(active(s)),
    ensures
        flip_applied(s, q, now).1 == q,
        flip_applied(s, q, now).0.awaited.flipbook is None,
{
    assert(active(with_params(s)) == active(s));
}

/// Asking for an image changes what concerns the request: its name, its path, its number and
/// that it is on its way. The folder stays while paging through it and goes where a path is
/// opened afresh; nothing else in the window moves.
pub proof fn law_requests_keep_to_themselves(s: Session, path: Seq<char>, generation: u64)
    ensures
        ({
            let l = loading(s, path, generation);
            let o = opened(s, path, generation);
            let a = adopted(s, path, generation);
            &&& l.loading && o.loading && a.loading
            &&& l.current == Some(path) && o.current == Some(path) && a.current == Some(path)
            &&& l.scene.generation == generation && o.scene.generation == generation
            &&& a.scene.generation == generation
            &&& l.meta.len() == 0 && o.meta.len() == 0
            &&& a.meta == s.meta
            &&& l.label == crate::status::shown_name(path)
            &&& o.label == l.label && a.label == l.label
            &&& l.folder == s.folder && o.folder is None && a.folder == s.folder
            &&& l.frames == s.frames && l.frame == s.frame
            &&& l.awaited == s.awaited && l.anim_due == s.anim_due
            &&& l.close == s.close && l.dialog == s.dialog
            &&& l.settings_open == s.settings_open && l.menu_open == s.menu_open
            &&& l.pump.wanted >= 2 && l.pump.wanted >= s.pump.wanted
            &&& o == (Session { folder: None, ..l })
            &&& a.pump == s.pump
        }),
{
}

/// A new window shows and awaits nothing, and has nothing open.
pub proof fn law_new_window_is_empty(id: u64, fit_upscale: bool, path: Seq<char>, g: u64)
    ensures
        ({
            let s = fresh_session(id, fit_upscale);
            &&& is_empty(s)
            &&& s.id == id
            &&& !can_page(s)
            &&& !can_toggle(s)
            &&& active(s) is None
            &&& editable(s) is None
            &&& !reloads(s, g)
            &&& s.scene.prefs.fit_upscale == fit_upscale
            &&& s.label.len() == 0 && s.meta.len() == 0
            &&& s.awaited.anim is None && s.awaited.flipbook is None && s.awaited.caret is None
            &&& !s.close && !s.settings_open && !s.menu_open && !s.dialog_running && s.dialog
                is None
            &&& !s.fullscreen_seen && !s.caret
            &&& crate::playback::book_of(s.books, path).state is None
        }),
{
}

/// Paging moves around the folder by as many files as were asked for, asks for the file that it
/// lands on, and leaves the folder's files as they are.
pub proof fn law_paging_lands_on_a_file(s: Session, delta: int, g: u64)
    requires
        can_page(s),
    ensures
        ({
            let f = s.folder->0;
            let t = paged(s, delta, g);
            let n = f.0.len() as int;
            &&& t.folder is Some
            &&& (t.folder->0).0 == f.0
            &&& 0 <= (t.folder->0).1 < n
            &&& (f.1 + delta - (t.folder->0).1) % n == 0
            &&& t.current == Some(f.0[(t.folder->0).1]@)
            &&& t.loading
            &&& 0 <= f.1 + delta < n ==> (t.folder->0).1 == f.1 + delta
            &&& n > 1
        }),
{
    let f = s.folder->0;
    let n = f.0.len() as int;
    let x = f.1 + delta;
    vstd::arithmetic::div_mod::lemma_fundamental_div_mod(x, n);
    vstd::arithmetic::mul::lemma_mul_is_commutative(n, x / n);
    vstd::arithmetic::div_mod::lemma_mod_multiples_basic(x / n, n);
    if 0 <= x < n {
        vstd::arithmetic::div_mod::lemma_small_mod(x as nat, n as nat);
    }
}

/// What becomes of a decoded image: an old one is dropped, one read again at the size on show
/// keeps the view, and every other starts afresh.
pub proof fn law_verdicts(s: Session, generation: u64, dims: (u32, u32), reload: bool)
    ensures
        verdict(s, generation, dims, reload) == Verdict::Stale <==> generation
            != s.scene.generation,
        verdict(s, generation, dims, reload) == Verdict::KeepView ==> reload && s.scene.shown
            is Some && s.scene.shown->0.width == dims.0 && s.scene.shown->0.height == dims.1,
        generation == s.scene.generation && reload && s.scene.shown is Some
            && s.scene.shown->0.width == dims.0 && s.scene.shown->0.height == dims.1 ==> verdict(
            s,
            generation,
            dims,
            reload,
        ) == Verdict::KeepView,
        !reload ==> verdict(s, generation, dims, reload) != Verdict::KeepView,
{
}

/// An animation waits for exactly one timer, the one that it just set for when its frame's
/// delay is over; a still image waits for none and sets none.
pub proof fn law_animation_sets_one_timer(s: Session, q: Line, now: u64)
    requires
        has_room(q, now, 1),
    ensures
        ({
            let (t, r) = anim_synced(s, q, now);
            let animated = s.frames.len() > 1;
            &&& animated ==> t.awaited.anim == Some(r.last) && r.last == q.last + 1
            &&& animated ==> t.anim_due is Some && t.anim_due->0 >= now + s.frames[s.frame]
                && t.anim_due->0 > now && (s.frames[s.frame] >= 1 ==> t.anim_due->0 == now
                + s.frames[s.frame])
            &&& animated ==> r.pending == q.pending.insert(
                crate::timers::Timer {
                    at: t.anim_due->0,
                    seq: r.last,
                    window: s.id,
                    kind: TimerKind::Anim,
                },
            )
            &&& !animated ==> t.awaited.anim is None && t.anim_due is None && r == q
            &&& t.awaited.flipbook == s.awaited.flipbook && t.awaited.caret == s.awaited.caret
            &&& t.scene == s.scene && t.frame == s.frame && t.books == s.books
        }),
{
}

/// A playing flipbook waits for one timer sixteen milliseconds ahead and remembers when it last
/// moved; any other waits for none and forgets it.
pub proof fn law_playback_sets_one_timer(s: Session, q: Line, now: u64)
    requires
        has_room(q, now, 1),
    ensures
        ({
            let (t, r) = flip_synced(s, q, now);
            let plays = active(s) is Some && active(s)->0.playing && active(s)->0.frame_count > 1;
            &&& plays ==> t.awaited.flipbook == Some(r.last) && r.last == q.last + 1
            &&& plays ==> r.pending == q.pending.insert(
                crate::timers::Timer {
                    at: (now + 16) as u64,
                    seq: r.last,
                    window: s.id,
                    kind: TimerKind::Flipbook,
                },
            )
            &&& plays ==> t.last_tick is Some && (s.last_tick is Some ==> t.last_tick
                == s.last_tick) && (s.last_tick is None ==> t.last_tick == Some(now))
            &&& !plays ==> t.awaited.flipbook is None && t.last_tick is None && r == q
            &&& t.awaited.anim == s.awaited.anim && t.awaited.caret == s.awaited.caret
            &&& t.scene == s.scene && t.books == s.books && t.anim_due == s.anim_due
        }),
{
}

/// A landed image is the one on show, from its first frame, and no longer on its way. Whether
/// it was read again decides what happens to the display alone.
pub proof fn law_landed_image_is_on_show(
    s: Session,
    q: Line,
    now: u64,
    path: Seq<char>,
    picture: Picture,
    frames: Seq<u32>,
    meta: Seq<char>,
    keep: bool,
)
    ensures
        ({
            let t = landed(s, q, now, path, picture, frames, meta, keep).0;
            &&& !t.loading
            &&& !is_empty(t)
            &&& t.shown == Some(path)
            &&& t.scene.shown == Some(picture)
            &&& t.frames == frames && t.frame == 0
            &&& t.meta == meta
            &&& t.label == crate::status::shown_name(path)
            &&& t.current == s.current && t.folder == s.folder
            &&& t.scene.generation == s.scene.generation
            &&& t.scene.gesture == s.scene.gesture
            &&& keep ==> t.scene.display.exposure == s.scene.display.exposure
                && t.scene.display.tonemap == s.scene.display.tonemap && t.scene.prefs
                == s.scene.prefs
            &&& !keep ==> t.scene.display.exposure == (Single { bits: 0 })
                && t.scene.display.tonemap == s.scene.prefs.default_tonemap
            &&& frames.len() <= 1 ==> t.awaited.anim is None
            &&& frames.len() > 1 ==> t.awaited.anim is Some
            &&& t.pump.wanted >= 2
        }),
{
}

/// An emptied window shows no image and plays nothing; its request, its texts and the way it is
/// set up stay.
pub proof fn law_emptied_window_keeps_its_setup(s: Session)
    ensures
        ({
            let t = emptied(s);
            &&& t.scene.shown is None && t.shown is None && t.scene.flipbook is None
            &&& t.frames.len() == 0 && t.last_tick is None
            &&& active(t) is None && editable(t) is None && !can_toggle(t)
            &&& t.scene.prefs == s.scene.prefs && t.scene.display == s.scene.display
            &&& t.scene.generation == s.scene.generation
            &&& t.current == s.current && t.folder == s.folder && t.books == s.books
            &&& t.label == s.label && t.meta == s.meta && t.loading == s.loading
            &&& t.awaited.caret == s.awaited.caret
            &&& t.pump.wanted >= 2
        }),
{
}

/// A failed image leaves its name and the reason; what was asked for and the folder stay, so
/// that paging goes on from there.
pub proof fn law_failure_can_be_paged_past(s: Session, path: Seq<char>, reason: Seq<char>)
    ensures
        ({
            let t = failed(s, path, reason);
            &&& t.label == crate::status::shown_name(path) && t.meta == reason
            &&& !t.loading && is_empty(t)
            &&& t.current == s.current && t.folder == s.folder
            &&& can_page(t) == can_page(s)
            &&& t.scene.generation == s.scene.generation
            &&& t.books == s.books
        }),
{
}

/// Closing forgets the file, its folder and its texts, and whatever is still on its way.
pub proof fn law_closing_forgets_the_file(s: Session, fresh: u64)
    ensures
        ({
            let t = closed_image(s, fresh);
            &&& t.current is None && t.folder is None && t.shown is None
            &&& t.label.len() == 0 && t.meta.len() == 0
            &&& !t.loading && !can_page(t) && is_empty(t)
            &&& t.scene.generation == fresh
            &&& t.books == s.books && t.scene.prefs == s.scene.prefs
            &&& t.close == s.close
        }),
{
}

/// A guess is noted with the path that it is about: nothing else of that path changes, and
/// nothing of any other.
pub proof fn law_guess_is_noted_with_its_path(
    s: Session,
    q: Line,
    now: u64,
    path: Seq<char>,
    guess: Option<Grid>,
    other: Seq<char>,
)
    ensures
        ({
            let t = guessed(s, q, now, path, guess).0;
            let was = crate::playback::book_of(s.books, path);
            let is = crate::playback::book_of(t.books, path);
            &&& is.hint == guess
            &&& is.state == was.state && is.enabled == was.enabled && is.hint_dismissed
                == was.hint_dismissed
            &&& other != path ==> crate::playback::book_of(t.books, other)
                == crate::playback::book_of(s.books, other)
            &&& active(t) == active(s)
        }),
{
}

/// The flipbook can be switched for a still image on show, never for an animation. Switching
/// turns the mode of that image round and of no other.
pub proof fn law_switching_turns_the_mode(
    s: Session,
    d: FlipbookCfg,
    q: Line,
    now: u64,
    other: Seq<char>,
)
    ensures
        can_toggle(s) ==> s.scene.shown is Some && s.shown is Some && s.frames.len() <= 1,
        s.scene.shown is Some && s.shown is Some && s.frames.len() <= 1 ==> can_toggle(s),
        !can_toggle(s) ==> switched(s, d, q, now) == (s, q),
        can_toggle(s) ==> crate::playback::book_of(
            switched(s, d, q, now).0.books,
            s.shown->0,
        ).enabled != crate::playback::book_of(s.books, s.shown->0).enabled,
        can_toggle(s) && active(s) is Some ==> switched(s, d, q, now).0.scene.flipbook is None,
        can_toggle(s) && !crate::playback::book_of(s.books, s.shown->0).enabled ==> switched(
            s,
            d,
            q,
            now,
        ).0.scene.flipbook is Some,
        s.shown != Some(other) ==> crate::playback::book_of(
            switched(s, d, q, now).0.books,
            other,
        ) == crate::playback::book_of(s.books, other),
{
}

/// After an edit the image's state is the edited one, and the surface shows its position; every
/// edit is drawn.
pub proof fn law_edits_are_shown(
    s: Session,
    q: Line,
    now: u64,
    t: crate::flipbook::FlipbookState,
    reach: EditReach,
)
    requires
        s.shown is Some,
        crate::playback::book_of(s.books, s.shown->0).enabled,
    ensures
        ({
            let n = edit_applied(s, q, now, t, reach).0;
            &&& active(n) == Some(t)
            &&& editable(n) == Some(t)
            &&& reach != EditReach::Position ==> n.scene.flipbook is Some
                && n.scene.flipbook->0.frame_count == t.frame_count && n.scene.flipbook->0.grid
                == t.grid && n.scene.flipbook->0.blend == t.blend
            &&& n.scene.flipbook is Some ==> n.scene.flipbook->0.frame_pos == t.frame_pos
            &&& reach == EditReach::Position ==> (n.scene.flipbook is Some
                <==> s.scene.flipbook is Some)
            &&& reach == EditReach::Position && s.scene.flipbook is Some
                ==> n.scene.flipbook->0.grid == s.scene.flipbook->0.grid
            &&& n.pump.wanted >= 2
            &&& crate::playback::book_of(n.books, s.shown->0).hint == crate::playback::book_of(
                s.books,
                s.shown->0,
            ).hint
        }),
{
}

/// An advance moves the position on the surface and the time of the last move, and leaves the
/// timers and the layout of frames alone.
pub proof fn law_advance_moves_the_position(
    s: Session,
    now: u64,
    t: crate::flipbook::FlipbookState,
)
    requires
        s.shown is Some,
        active(s) is Some,
    ensures
        ({
            let n = advanced(s, now, t);
            &&& n.last_tick == Some(now)
            &&& active(n) == Some(t)
            &&& s.scene.flipbook is Some ==> n.scene.flipbook is Some
                && n.scene.flipbook->0.frame_pos == t.frame_pos && n.scene.flipbook->0.grid
                == s.scene.flipbook->0.grid
            &&& n.awaited == s.awaited
            &&& n.scene.shown == s.scene.shown
        }),
{
}

/// A caret that still blinks draws one frame and waits for one timer, 33 milliseconds ahead; one
/// that is gone draws the frame and waits no more.
pub proof fn law_caret_blinks_on(s: Session, q: Line, now: u64)
    requires
        has_room(q, now, 1),
    ensures
        ({
            let (t, r) = blinked(s, q, now);
            &&& t.pump.wanted >= 1 && t.pump.wanted >= s.pump.wanted
            &&& s.pump.wanted == 0 ==> t.pump.wanted == 1
            &&& s.caret ==> t.awaited.caret == Some(r.last) && r.last == q.last + 1
            &&& s.caret ==> r.pending == q.pending.insert(
                crate::timers::Timer {
                    at: (now + 33) as u64,
                    seq: r.last,
                    window: s.id,
                    kind: TimerKind::Caret,
                },
            )
            &&& !s.caret ==> t.awaited.caret is None && r == q
            &&& t.awaited.anim == s.awaited.anim && t.awaited.flipbook == s.awaited.flipbook
            &&& t.caret == s.caret
        }),
{
}

/// The status bar counts files from one and reports the image on show.
pub proof fn law_status_counts_from_one(s: Session, look: Look)
    requires
        s.folder matches Some(f) ==> 0 <= f.1 < f.0.len() && f.0.len() <= usize::MAX,
    ensures
        ({
            let p = status_parts(s, look);
            &&& p.folder is Some <==> s.folder is Some
            &&& p.folder matches Some(c) ==> 1 <= c.0 <= c.1 && c.1 == (s.folder->0).0.len()
                && c.0 - 1 == (s.folder->0).1
            &&& p.image is Some <==> s.scene.shown is Some
            &&& p.image matches Some(d) ==> d.0 == s.scene.shown->0.width && d.1
                == s.scene.shown->0.height
            &&& p.zoom_percent == look.zoom_percent
            &&& p.mip_level == look.mip_level && p.mip_count == look.mip_count
            &&& p.is_hdr <==> crate::scene::shows_hdr(s.scene)
        }),
{
}

/// The primary modifier is Command on a Mac and Control elsewhere, and the other of the two
/// counts for nothing.
pub proof fn law_primary_modifier(key: KeyCode, held: Held, platform: Platform, c: KeyChord)
    requires
        is_chord(key, held, platform, c),
    ensures
        platform == Platform::Mac ==> c.primary == held.command,
        platform != Platform::Mac ==> c.primary == held.control,
        c.alt == held.alt,
        c.shift == held.shift,
        c.key == key,
        platform == Platform::Mac ==> is_chord(
            key,
            Held { control: !held.control, ..held },
            platform,
            c,
        ),
        platform != Platform::Mac ==> is_chord(
            key,
            Held { command: !held.command, ..held },
            platform,
            c,
        ),
{
}

/// What a closed dialog orders.
pub open spec fn dialog_order(dialog: Dialog, picked: bool, settings_open: bool) -> DialogOrder {
    if picked && dialog == Dialog::OpenImage {
        DialogOrder::Open
    } else if picked && dialog == Dialog::BrowseProgram && settings_open {
        DialogOrder::SetProgram
    } else {
        DialogOrder::Nothing
    }
}

/// A dialog orders something only where something was picked: the picker of images opens it, and
/// that of programs sets it while the settings are still up.
pub proof fn law_dialogs_order_what_was_picked(dialog: Dialog, picked: bool, settings_open: bool)
    ensures
        !picked ==> dialog_order(dialog, picked, settings_open) == DialogOrder::Nothing,
        dialog_order(dialog, picked, settings_open) == DialogOrder::Open <==> picked && dialog
            == Dialog::OpenImage,
        dialog_order(dialog, picked, settings_open) == DialogOrder::SetProgram <==> picked && dialog
            == Dialog::BrowseProgram && settings_open,
{
}

} // verus!
