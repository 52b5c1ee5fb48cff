//! The shell: one process, one event loop, any number of viewer windows.
use vstd::prelude::*;

use crate::config::InstanceMode;

verus! {

/// A finished scan of the folder of an image.
#[derive(Debug)]
pub struct FolderScan {
    /// The image whose folder was scanned.
    pub path: String,
    /// The sibling images in paging order.
    pub entries: Vec<String>,
}

/// The launch path, whose decode began before any window existed.
#[derive(Debug)]
pub struct Initial {
    pub path: String,
    pub generation: u64,
}

/// The windows of the process.
pub struct Shell {
    order: Vec<u64>,
    focused: Option<u64>,
    started: bool,
}

/// No window occurs twice.
pub open spec fn distinct(order: Seq<u64>) -> bool {
    forall|i: int, j: int| 0 <= i < j < order.len() ==> order[i] != order[j]
}

/// The window that a forwarded open or a menu command goes to: the focused one, else the one
/// opened last.
pub open spec fn reuse(order: Seq<u64>, focused: Option<u64>) -> Option<u64> {
    if focused matches Some(id) && order.contains(id) {
        focused
    } else if order.len() > 0 {
        Some(order.last())
    } else {
        None
    }
}

/// The window that a message is for: its own, or for the launch path's decode the first one.
pub open spec fn addressed(order: Seq<u64>, window: Option<u64>) -> Option<u64> {
    match window {
        Some(id) => if order.contains(id) {
            Some(id)
        } else {
            None
        },
        None => if order.len() > 0 {
            Some(order[0])
        } else {
            None
        },
    }
}

/// The windows that are left once one is closed.
pub open spec fn remaining(order: Seq<u64>, id: u64) -> Seq<u64> {
    order.filter(is_not(id))
}

pub open spec fn is_not(id: u64) -> spec_fn(u64) -> bool {
    |w: u64| w != id
}

/// Where an open request goes.
#[derive(Debug, Clone, Copy, PartialEq, Eq, Structural)]
pub enum OpenOrder {
    NewWindow,
    Window(u64),
}

impl Shell {
    #[verifier::type_invariant]
    spec fn valid(self) -> bool {
        distinct(self.order@)
    }

    /// The windows in the order in which they were opened.
    pub closed spec fn windows(self) -> Seq<u64> {
        self.order@
    }

    /// The window that had the focus last.
    pub closed spec fn focus(self) -> Option<u64> {
        self.focused
    }

    pub closed spec fn has_started(self) -> bool {
        self.started
    }

    /// No windows yet.
    pub fn new() -> (s: Self)
        ensures
            s.windows() == Seq::<u64>::empty(),
            s.focus() is None,
            !s.has_started(),
    {
        let s = Shell { order: Vec::new(), focused: None, started: false };
        assert(s.windows() =~= Seq::<u64>::empty());
        s
    }

    fn is_open(&self, id: u64) -> (r: bool)
        ensures
            r == self.windows().contains(id),
    {
        let mut i: usize = 0;
        while i < self.order.len()
            invariant
                i <= self.order.len(),
                forall|k: int| 0 <= k < i ==> self.order@[k] != id,
            decreases self.order.len() - i,
        {
            if self.order[i] == id {
                assert(self.windows()[i as int] == id);
                return true;
            }
            i += 1;
        }
        false
    }

    /// The loop has come up. Tells whether it is the first time, when the first window is made.
    pub fn start(&mut self) -> (first: bool)
        ensures
            first == !old(self).has_started(),
            final(self).has_started(),
            final(self).windows() == old(self).windows(),
            final(self).focus() == old(self).focus(),
    {
        proof {
            use_type_invariant(&*self);
        }
        let first = !self.started;
        self.started = true;
        first
    }

    /// A window was opened.
    pub fn opened(&mut self, id: u64)
        requires
            !old(self).windows().contains(id),
        ensures
            final(self).windows() == old(self).windows().push(id),
            final(self).focus() == old(self).focus(),
            final(self).has_started() == old(self).has_started(),
    {
        proof {
            use_type_invariant(&*self);
        }
        let mut order: Vec<u64> = Vec::new();
        std::mem::swap(&mut order, &mut self.order);
        let ghost was = order@;
        order.push(id);
        proof {
            assert forall|i: int, j: int| 0 <= i < j < order@.len() implies order@[i] != order@[j] by {
                if j == was.len() {
                    assert(was.contains(was[i]));
                }
            }
        }
        self.order = order;
    }

    /// A window could not be opened. Tells whether that leaves nothing to show, which ends the
    /// process with a report.
    pub fn open_failed(&self) -> (fatal: bool)
        ensures
            fatal == (self.windows().len() == 0),
    {
        self.order.len() == 0
    }

    /// A window got the focus.
    pub fn focused(&mut self, id: u64)
        ensures
            final(self).focus() == Some(id),
            final(self).windows() == old(self).windows(),
            final(self).has_started() == old(self).has_started(),
    {
        proof {
            use_type_invariant(&*self);
        }
        self.focused = Some(id);
    }

    /// The window that a forwarded open or a menu command goes to.
    pub fn reuse_target(&self) -> (r: Option<u64>)
        ensures
            r == reuse(self.windows(), self.focus()),
    {
        match self.focused {
            Some(id) => {
                if self.is_open(id) {
                    return Some(id);
                }
            },
            None => {},
        }
        if self.order.len() > 0 {
            Some(self.order[self.order.len() - 1])
        } else {
            None
        }
    }

    /// The window that a message is for.
    pub fn target(&self, window: Option<u64>) -> (r: Option<u64>)
        ensures
            r == addressed(self.windows(), window),
    {
        match window {
            Some(id) => if self.is_open(id) {
                Some(id)
            } else {
                None
            },
            None => if self.order.len() > 0 {
                Some(self.order[0])
            } else {
                None
            },
        }
    }

    /// Where an open request goes.
    pub fn open_order(&self, mode: InstanceMode) -> (r: OpenOrder)
        ensures
            r == match (mode, reuse(self.windows(), self.focus())) {
                (InstanceMode::SingleInstance, Some(id)) => OpenOrder::Window(id),
                _ => OpenOrder::NewWindow,
            },
            r == opening(self.windows(), self.focus(), mode),
    {
        match mode {
            InstanceMode::NewWindow => OpenOrder::NewWindow,
            InstanceMode::SingleInstance => match self.reuse_target() {
                Some(id) => OpenOrder::Window(id),
                None => OpenOrder::NewWindow,
            },
        }
    }

    /// The windows that adopt the settings that window `id` applied: all the others.
    pub fn others(&self, id: u64) -> (r: Vec<u64>)
        ensures
            r@ == remaining(self.windows(), id),
    {
        let mut r: Vec<u64> = Vec::new();
        let mut i: usize = 0;
        while i < self.order.len()
            invariant
                i <= self.order.len(),
                r@ == remaining(self.order@.take(i as int), id),
            decreases self.order.len() - i,
        {
            proof {
                let next = self.order@.take(i + 1);
                assert(next.drop_last() =~= self.order@.take(i as int));
                assert(next.last() == self.order@[i as int]);
                reveal(Seq::filter);
            }
            if self.order[i] != id {
                r.push(self.order[i]);
            }
            i += 1;
        }
        assert(self.order@.take(self.order.len() as int) =~= self.order@);
        r
    }

    /// A window was closed. Tells whether it was the last, which ends the process.
    pub fn close_window(&mut self, id: u64) -> (exit: bool)
        ensures
            final(self).windows() == remaining(old(self).windows(), id),
            final(self).focus() == if old(self).focus() == Some(id) {
                None
            } else {
                old(self).focus()
            },
            final(self).has_started() == old(self).has_started(),
            exit == (final(self).windows().len() == 0),
    {
        proof {
            use_type_invariant(&*self);
        }
        let left = self.others(id);
        proof {
            lemma_remaining_distinct(self.order@, id);
        }
        let gone = match self.focused {
            Some(f) => f == id,
            None => false,
        };
        self.order = left;
        if gone {
            self.focused = None;
        }
        self.order.len() == 0
    }
}

proof fn lemma_remaining_distinct(order: Seq<u64>, id: u64)
    requires
        distinct(order),
    ensures
        distinct(remaining(order, id)),
        forall|w: u64| #[trigger]
            remaining(order, id).contains(w) <==> order.contains(w) && w != id,
    decreases order.len(),
{
    reveal(Seq::filter);
    let kept = remaining(order, id);
    if order.len() > 0 {
        let front = order.drop_last();
        let last = order.last();
        assert(distinct(front));
        lemma_remaining_distinct(front, id);
        let before = remaining(front, id);
        assert(!front.contains(last)) by {
            if front.contains(last) {
                let i = choose|i: int| 0 <= i < front.len() && front[i] == last;
                assert(order[i] != order[order.len() - 1]);
            }
        }
        assert forall|w: u64| #[trigger] kept.contains(w) <==> order.contains(w) && w != id by {
            if kept.contains(w) {
                let i = choose|i: int| 0 <= i < kept.len() && kept[i] == w;
                if i < before.len() {
                    assert(before[i] == w);
                    assert(before.contains(w));
                    let k = choose|k: int| 0 <= k < front.len() && front[k] == w;
                    assert(order[k] == w);
                } else {
                    assert(order[order.len() - 1] == w);
                }
            }
            if order.contains(w) && w != id {
                let k = choose|k: int| 0 <= k < order.len() && order[k] == w;
                if k < front.len() {
                    assert(front[k] == w);
                    assert(before.contains(w));
                    let i = choose|i: int| 0 <= i < before.len() && before[i] == w;
                    assert(kept[i] == w);
                } else {
                    assert(kept[kept.len() - 1] == w);
                }
            }
        }
        assert forall|i: int, j: int| 0 <= i < j < kept.len() implies kept[i] != kept[j] by {
            if last != id && j == kept.len() - 1 {
                assert(before.contains(before[i]));
                assert(front.contains(before[i]));
            }
        }
    }
}

/// A window that opens are sent to is one that is open.
pub proof fn law_reuse_target_is_open(order: Seq<u64>, focused: Option<u64>)
    ensures
        reuse(order, focused) matches Some(id) ==> order.contains(id),
        reuse(order, focused) is None <==> order.len() == 0,
{
    if order.len() > 0 {
        assert(order[order.len() - 1] == order.last());
    }
}

/// A closed window gets no more messages; the others keep getting theirs.
pub proof fn law_closed_window_is_gone(order: Seq<u64>, id: u64, other: u64)
    requires
        distinct(order),
        other != id,
    ensures
        addressed(remaining(order, id), Some(id)) is None,
        addressed(remaining(order, id), Some(other)) == addressed(order, Some(other)),
{
    lemma_remaining_distinct(order, id);
}

/// The size of a fresh window: the remembered one, but not below 200 by 150.
pub fn first_size(saved: Option<(i32, i32)>) -> (r: (u32, u32))
    ensures
        saved is None ==> r == (1280u32, 800u32),
        saved matches Some(s) ==> r.0 == (if s.0 > 200 {
            s.0 as int
        } else {
            200
        }) && r.1 == (if s.1 > 150 {
            s.1 as int
        } else {
            150
        }),
        r == opening_size(saved),
{
    match saved {
        None => (1280, 800),
        Some((w, h)) => (
            if w > 200 {
                w as u32
            } else {
                200
            },
            if h > 150 {
                h as u32
            } else {
                150
            },
        ),
    }
}

/// Whether a fresh window is maximized: as the launcher says, else as it was left.
pub fn first_maximized(launcher: Option<crate::platform::LaunchShow>, saved: Option<bool>) -> (r: bool)
    ensures
        r == match launcher {
            Some(show) => show == crate::platform::LaunchShow::Maximized,
            None => saved == Some(true),
        },
        r == opens_maximized(launcher, saved),
{
    match launcher {
        Some(show) => match show {
            crate::platform::LaunchShow::Maximized => true,
            _ => false,
        },
        None => match saved {
            Some(m) => m,
            None => false,
        },
    }
}

/// The placement of a window that the next launch restores.
#[derive(Debug, Clone, Copy, PartialEq, Eq, Structural)]
pub struct Placement {
    pub x: i32,
    pub y: i32,
    pub width: u32,
    pub height: u32,
    pub maximized: bool,
}

/// Follows a window's placement while it is neither maximized, minimized nor full-screen.
#[derive(Debug, Clone, Copy)]
pub struct PlacementTracker {
    pub pos: Option<(i32, i32)>,
    pub size: Option<(u32, u32)>,
    pub maximized: bool,
}

impl PlacementTracker {
    /// The window moved.
    pub fn moved(&mut self, x: i32, y: i32, normal: bool)
        ensures
            final(self).pos == if normal {
                Some((x, y))
            } else {
                old(self).pos
            },
            final(self).size == old(self).size,
            final(self).maximized == old(self).maximized,
    {
        if normal {
            self.pos = Some((x, y));
        }
    }

    /// The window was resized. Tells whether the maximized state changed, which is saved at once.
    pub fn resized(&mut self, w: u32, h: u32, normal: bool, maximized: bool, fullscreen: bool) -> (save:
        bool)
        ensures
            final(self).size == if normal {
                Some((w, h))
            } else {
                old(self).size
            },
            final(self).pos == old(self).pos,
            save == (maximized != old(self).maximized && !fullscreen),
            final(self).maximized == if save {
                maximized
            } else {
                old(self).maximized
            },
    {
        if normal {
            self.size = Some((w, h));
        }
        let save = maximized != self.maximized && !fullscreen;
        if save {
            self.maximized = maximized;
        }
        save
    }

    /// What to save: the last normal placement, else the current one; nothing without an area.
    pub fn placement(&self, outer: Option<(i32, i32)>, inner: (u32, u32)) -> (r: Option<Placement>)
        ensures
            ({
                let size = match self.size {
                    Some(s) => s,
                    None => inner,
                };
                let pos = match (self.pos, outer) {
                    (Some(p), _) => p,
                    (None, Some(p)) => p,
                    (None, None) => (0i32, 0i32),
                };
                r == if size.0 == 0 || size.1 == 0 {
                    None
                } else {
                    Some(
                        Placement {
                            x: pos.0,
                            y: pos.1,
                            width: size.0,
                            height: size.1,
                            maximized: self.maximized,
                        },
                    )
                }
            }),
            r == kept_placement(*self, outer, inner),
    {
        let (w, h) = match self.size {
            Some(s) => s,
            None => inner,
        };
        if w == 0 || h == 0 {
            return None;
        }
        let (x, y) = match self.pos {
            Some(p) => p,
            None => match outer {
                Some(p) => p,
                None => (0, 0),
            },
        };
        Some(Placement { x, y, width: w, height: h, maximized: self.maximized })
    }
}

/// A message for the event loop, by whom it is for.
#[derive(Debug, Clone, Copy, PartialEq, Eq, Structural)]
pub enum ShellEvent {
    /// A launch handed over a file.
    Open,
    /// An item of the menu bar was chosen.
    MenuCommand,
    /// A decode is done; the launch path's was submitted before any window existed.
    DecodeDone(Option<u64>),
    /// A detection is done.
    FlipbookGuess(Option<u64>),
    FolderScanned(u64),
    FileChanged(u64),
    DialogDone(u64),
    ThemeReloaded,
}

/// Who gets a message.
#[derive(Debug, Clone, Copy, PartialEq, Eq, Structural)]
pub enum Delivery {
    NewWindow,
    Window(u64),
    EveryWindow,
    Nobody,
}

pub open spec fn to_window(id: Option<u64>) -> Delivery {
    match id {
        Some(id) => Delivery::Window(id),
        None => Delivery::Nobody,
    }
}

/// Who gets a message.
pub open spec fn delivered(order: Seq<u64>, focused: Option<u64>, e: ShellEvent, mode: InstanceMode) -> Delivery {
    match e {
        ShellEvent::Open => match (mode, reuse(order, focused)) {
            (InstanceMode::SingleInstance, Some(id)) => Delivery::Window(id),
            _ => Delivery::NewWindow,
        },
        ShellEvent::MenuCommand => to_window(reuse(order, focused)),
        ShellEvent::DecodeDone(w) | ShellEvent::FlipbookGuess(w) => to_window(addressed(order, w)),
        ShellEvent::FolderScanned(id)
        | ShellEvent::FileChanged(id)
        | ShellEvent::DialogDone(id) => to_window(addressed(order, Some(id))),
        ShellEvent::ThemeReloaded => Delivery::EveryWindow,
    }
}

impl Shell {
    /// Who gets a message.
    pub fn handle_user_event(&self, e: ShellEvent, mode: InstanceMode) -> (d: Delivery)
        ensures
            d == delivered(self.windows(), self.focus(), e, mode),
    {
        let id = match e {
            ShellEvent::Open => {
                return match self.open_order(mode) {
                    OpenOrder::NewWindow => Delivery::NewWindow,
                    OpenOrder::Window(id) => Delivery::Window(id),
                };
            },
            ShellEvent::ThemeReloaded => {
                return Delivery::EveryWindow;
            },
            ShellEvent::MenuCommand => self.reuse_target(),
            ShellEvent::DecodeDone(w) => self.target(w),
            ShellEvent::FlipbookGuess(w) => self.target(w),
            ShellEvent::FolderScanned(id) => self.target(Some(id)),
            ShellEvent::FileChanged(id) => self.target(Some(id)),
            ShellEvent::DialogDone(id) => self.target(Some(id)),
        };
        match id {
            Some(id) => Delivery::Window(id),
            None => Delivery::Nobody,
        }
    }

    /// What a window asked for during the event just handed to it. Gives the windows that adopt
    /// the settings it applied, and tells whether the process ends.
    pub fn after_dispatch(&mut self, id: u64, settings_applied: bool, close: bool) -> (r: (
        Vec<u64>,
        bool,
    ))
        ensures
            !old(self).windows().contains(id) ==> r.0.len() == 0 && !r.1 && final(self).windows()
                == old(self).windows() && final(self).focus() == old(self).focus(),
            old(self).windows().contains(id) ==> {
                &&& r.0@ == if settings_applied {
                    remaining(old(self).windows(), id)
                } else {
                    Seq::<u64>::empty()
                }
                &&& r.1 == (close && remaining(old(self).windows(), id).len() == 0)
                &&& final(self).windows() == if close {
                    remaining(old(self).windows(), id)
                } else {
                    old(self).windows()
                }
                &&& final(self).focus() == if close && old(self).focus() == Some(id) {
                    None
                } else {
                    old(self).focus()
                }
            },
            final(self).has_started() == old(self).has_started(),
    {
        let none: Vec<u64> = Vec::new();
        if !self.is_open(id) {
            return (none, false);
        }
        let adopt = if settings_applied {
            self.others(id)
        } else {
            none
        };
        assert(!settings_applied ==> adopt@ =~= Seq::<u64>::empty());
        let exit = if close {
            self.close_window(id)
        } else {
            false
        };
        (adopt, exit)
    }
}

/// A message for a window that has closed reaches nobody.
pub proof fn law_message_for_closed_window(order: Seq<u64>, focused: Option<u64>, id: u64, mode: InstanceMode)
    requires
        !order.contains(id),
    ensures
        delivered(order, focused, ShellEvent::FolderScanned(id), mode) == Delivery::Nobody,
        delivered(order, focused, ShellEvent::FileChanged(id), mode) == Delivery::Nobody,
        delivered(order, focused, ShellEvent::DialogDone(id), mode) == Delivery::Nobody,
        delivered(order, focused, ShellEvent::DecodeDone(Some(id)), mode) == Delivery::Nobody,
        delivered(order, focused, ShellEvent::FlipbookGuess(Some(id)), mode) == Delivery::Nobody,
{
}

/// The focused window is used again while it is open, else the one that was opened last.
pub proof fn law_focus_comes_first(order: Seq<u64>, id: u64)
    ensures
        order.contains(id) ==> reuse(order, Some(id)) == Some(id),
        order.len() > 0 ==> reuse(order, None) == Some(order[order.len() - 1]),
        reuse(order.push(id), None) == Some(id),
        order.len() > 0 && !order.contains(id) ==> reuse(order, Some(id)) == reuse(order, None),
{
    assert(order.push(id).last() == id);
}

/// A message goes to the window it names or to none; one that names none goes to the window that
/// was opened first.
pub proof fn law_messages_go_where_they_say(order: Seq<u64>, id: u64)
    ensures
        addressed(order, Some(id)) is Some <==> order.contains(id),
        addressed(order, Some(id)) matches Some(w) ==> w == id,
        order.len() > 0 ==> addressed(order, None) == Some(order[0]),
        addressed(order, None) is Some <==> order.len() > 0,
{
}

/// Closing a window takes out that one and no other, and keeps the others in their order.
pub proof fn law_others_stay_in_order(order: Seq<u64>, id: u64, w: u64)
    requires
        distinct(order),
    ensures
        remaining(order, id).contains(w) <==> order.contains(w) && w != id,
        remaining(order, id).len() == order.len() - (if order.contains(id) {
            1int
        } else {
            0
        }),
        forall|i: int, j: int|
            0 <= i < j < remaining(order, id).len() ==> order.index_of(
                #[trigger] remaining(order, id)[i],
            ) < order.index_of(#[trigger] remaining(order, id)[j]),
    decreases order.len(),
{
    reveal(Seq::filter);
    if order.len() > 0 {
        let rest = order.drop_last();
        assert(order =~= rest.push(order.last()));
        assert forall|i: int, j: int| 0 <= i < j < rest.len() implies rest[i] != rest[j] by {
            assert(order[i] != order[j]);
        }
        law_others_stay_in_order(rest, id, w);
        law_others_stay_in_order(rest, id, order.last());
        assert forall|x: u64| rest.contains(x) implies order.contains(x) && order.index_of(x)
            == rest.index_of(x) && rest.index_of(x) < rest.len() by {
            let k = rest.index_of(x);
            assert(0 <= k < rest.len() && rest[k] == x);
            assert(order[k] == x);
            let q = order.index_of(x);
            assert(0 <= q < order.len() && order[q] == x);
            assert(q == k);
        }
        let last = order.last();
        assert(order[order.len() - 1] == last);
        let q = order.index_of(last);
        assert(0 <= q < order.len() && order[q] == last);
        assert(q == order.len() - 1);
        assert(!rest.contains(last));
        if w != last && order.contains(w) {
            let k = order.index_of(w);
            assert(0 <= k < order.len() && order[k] == w);
            assert(rest[k] == w);
        }
        if last == id {
            assert(remaining(order, id) =~= remaining(rest, id));
            assert(!rest.contains(id));
        } else {
            assert(remaining(order, id) =~= remaining(rest, id).push(last));
            if order.contains(id) {
                let k = order.index_of(id);
                assert(0 <= k < order.len() && order[k] == id);
                assert(rest[k] == id);
            }
            if remaining(order, id).contains(w) && w != last {
                let k = remaining(order, id).index_of(w);
                assert(remaining(rest, id)[k] == w);
            }
            if remaining(rest, id).contains(w) {
                let k = remaining(rest, id).index_of(w);
                assert(remaining(order, id)[k] == w);
            }
            assert(remaining(order, id)[remaining(order, id).len() - 1] == last);
        }
        assert forall|i: int, j: int| 0 <= i < j < remaining(order, id).len() implies order.index_of(
            #[trigger] remaining(order, id)[i],
        ) < order.index_of(#[trigger] remaining(order, id)[j]) by {
            let r = remaining(rest, id);
            assert(remaining(order, id)[i] == r[i]);
            law_others_stay_in_order(rest, id, r[i]);
            assert(r.contains(r[i]));
            assert(rest.contains(r[i]));
            if j < r.len() {
                assert(remaining(order, id)[j] == r[j]);
                law_others_stay_in_order(rest, id, r[j]);
                assert(r.contains(r[j]));
                assert(rest.contains(r[j]));
            } else {
                assert(remaining(order, id)[j] == last);
            }
        }
    }
}

/// To whom each message goes. A file to open takes a new window unless windows are shared and
/// one is there; a command of the menu never opens one; only a changed theme concerns them all.
pub proof fn law_delivery(order: Seq<u64>, focused: Option<u64>, e: ShellEvent, mode: InstanceMode)
    ensures
        ({
            let d = delivered(order, focused, e, mode);
            &&& d == Delivery::EveryWindow <==> e == ShellEvent::ThemeReloaded
            &&& d == Delivery::NewWindow <==> e == ShellEvent::Open && (mode
                != InstanceMode::SingleInstance || order.len() == 0)
            &&& d matches Delivery::Window(w) ==> order.contains(w)
            &&& e == ShellEvent::MenuCommand ==> (d == Delivery::Nobody <==> order.len() == 0)
            &&& (e == ShellEvent::MenuCommand || e == ShellEvent::Open) && d is Window
                && focused is Some && order.contains(focused->0) ==> d == Delivery::Window(
                focused->0,
            )
            &&& e matches ShellEvent::FolderScanned(w) ==> (order.contains(w) ==> d == Delivery::Window(w))
            &&& e matches ShellEvent::FileChanged(w) ==> (order.contains(w) ==> d == Delivery::Window(w))
            &&& e matches ShellEvent::DialogDone(w) ==> (order.contains(w) ==> d == Delivery::Window(w))
            &&& e matches ShellEvent::DecodeDone(Some(w)) ==> (order.contains(w) ==> d == Delivery::Window(w))
            &&& e matches ShellEvent::FlipbookGuess(Some(w)) ==> (order.contains(w) ==> d == Delivery::Window(w))
            &&& (e == ShellEvent::DecodeDone(None) || e == ShellEvent::FlipbookGuess(None))
                && order.len() > 0 ==> d == Delivery::Window(order[0])
        }),
{
}

/// The size of the first window.
pub open spec fn opening_size(saved: Option<(i32, i32)>) -> (u32, u32) {
    match saved {
        None => (1280, 800),
        Some(s) => (
            (if s.0 < 200 {
                200
            } else {
                s.0
            }) as u32,
            (if s.1 < 150 {
                150
            } else {
                s.1
            }) as u32,
        ),
    }
}

/// A saved size comes back as it was, as long as it is large enough to use; each side is looked
/// at alone. A size that was never saved is a usable one.
pub proof fn law_saved_size_comes_back(w: i32, h: i32)
    ensures
        ({
            let r = opening_size(Some((w, h)));
            &&& r.0 >= 200 && r.1 >= 150
            &&& w >= 200 ==> r.0 == w
            &&& h >= 150 ==> r.1 == h
            &&& w < 200 ==> r.0 == 200
            &&& h < 150 ==> r.1 == 150
            &&& opening_size(None) == opening_size(Some((1280, 800)))
        }),
{
}

/// Whether the first window opens maximised.
pub open spec fn opens_maximized(
    launcher: Option<crate::platform::LaunchShow>,
    saved: Option<bool>,
) -> bool {
    if launcher is Some {
        launcher->0 == crate::platform::LaunchShow::Maximized
    } else {
        saved is Some && saved->0
    }
}

/// The launcher has the last word; without one the window opens as it was left.
pub proof fn law_launcher_has_the_last_word(
    show: crate::platform::LaunchShow,
    saved: Option<bool>,
    other: Option<bool>,
    was: bool,
)
    ensures
        opens_maximized(Some(show), saved) == opens_maximized(Some(show), other),
        opens_maximized(Some(show), saved) <==> show != crate::platform::LaunchShow::Normal && show
            != crate::platform::LaunchShow::Minimized,
        opens_maximized(None, Some(was)) == was,
        !opens_maximized(None, None),
{
}

/// What is kept of a window's place.
pub open spec fn kept_placement(t: PlacementTracker, outer: Option<(i32, i32)>, inner: (u32, u32)) -> Option<
    Placement,
> {
    let (width, height) = if t.size is Some {
        t.size->0
    } else {
        inner
    };
    let (x, y) = if t.pos is Some {
        t.pos->0
    } else if outer is Some {
        outer->0
    } else {
        (0i32, 0i32)
    };
    if width > 0 && height > 0 {
        Some(Placement { x, y, width, height, maximized: t.maximized })
    } else {
        None
    }
}

/// The place that is kept is where the window last stood as an ordinary one, with the present
/// place only where it never did; a window without area keeps none.
pub proof fn law_ordinary_place_is_kept(t: PlacementTracker, outer: Option<(i32, i32)>, inner: (u32, u32))
    ensures
        ({
            let r = kept_placement(t, outer, inner);
            &&& r matches Some(p) ==> p.width > 0 && p.height > 0 && p.maximized == t.maximized
            &&& t.size matches Some(s) ==> (r is Some <==> s.0 > 0 && s.1 > 0)
            &&& t.size is None ==> (r is Some <==> inner.0 > 0 && inner.1 > 0)
            &&& r is Some && t.size is Some ==> r->0.width == (t.size->0).0 && r->0.height == (
            t.size->0).1
            &&& r is Some && t.size is None ==> r->0.width == inner.0 && r->0.height == inner.1
            &&& r is Some && t.pos is Some ==> r->0.x == (t.pos->0).0 && r->0.y == (t.pos->0).1
            &&& r is Some && t.pos is None && outer is Some ==> r->0.x == (outer->0).0 && r->0.y
                == (outer->0).1
            &&& t.size is Some && t.pos is Some ==> r == kept_placement(t, None, (0, 0))
        }),
{
}

/// Where a file is opened.
pub open spec fn opening(order: Seq<u64>, focused: Option<u64>, mode: InstanceMode) -> OpenOrder {
    if mode == InstanceMode::SingleInstance && reuse(order, focused) is Some {
        OpenOrder::Window(reuse(order, focused)->0)
    } else {
        OpenOrder::NewWindow
    }
}

/// A file opens in a new window unless windows are shared and one is open; then in the window
/// that an open request would be delivered to.
pub proof fn law_files_open_where_requests_go(
    order: Seq<u64>,
    focused: Option<u64>,
    mode: InstanceMode,
    id: u64,
)
    ensures
        opening(order, focused, mode) == OpenOrder::NewWindow <==> mode == InstanceMode::NewWindow
            || order.len() == 0,
        opening(order, focused, mode) == OpenOrder::Window(id) <==> delivered(
            order,
            focused,
            ShellEvent::Open,
            mode,
        ) == Delivery::Window(id),
        opening(order, focused, mode) == OpenOrder::Window(id) ==> order.contains(id),
{
}

} // verus!
