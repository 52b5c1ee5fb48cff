//! Time-driven display: the frames of an animated image, the timers a window waits for, the frames
//! of its own that it still owes, and the session's flipbook settings by path.
use vstd::arithmetic::power2::pow2;
use vstd::prelude::*;

use crate::config::FlipbookCfg;
use crate::flipbook::{is_settled, FlipbookState, Grid, PerPath};
use crate::scene::FlipbookParams;
use crate::single::{pack, Single};
use crate::text::same_text;
use crate::timers::{TimerKind, TimerQueue};
use crate::wrap::fraction;

verus! {

/// The frames of the animated image on the surface, by their delays, and the one shown.
pub struct AnimState {
    delays: Vec<u32>,
    index: usize,
}

impl AnimState {
    #[verifier::type_invariant]
    spec fn in_range(self) -> bool {
        self.index == 0 || self.index < self.delays.len()
    }

    /// The delays of the frames in milliseconds.
    pub closed spec fn frames(self) -> Seq<u32> {
        self.delays@
    }

    /// The frame shown.
    pub closed spec fn at(self) -> int {
        self.index as int
    }

    /// No animation.
    pub fn new() -> (s: Self)
        ensures
            s.frames().len() == 0,
            s.at() == 0,
    {
        AnimState { delays: Vec::new(), index: 0 }
    }

    /// Take the frames of an image, none for a still one, from the first.
    pub fn adopt(&mut self, delays: Option<Vec<u32>>)
        ensures
            final(self).frames() == match delays {
                Some(d) => d@,
                None => Seq::<u32>::empty(),
            },
            final(self).at() == 0,
    {
        self.index = 0;
        self.delays = match delays {
            Some(d) => d,
            None => Vec::new(),
        };
        assert(delays is None ==> self.delays@ =~= Seq::<u32>::empty());
    }

    /// Drop the animation.
    pub fn clear(&mut self)
        ensures
            final(self).frames() == Seq::<u32>::empty(),
            final(self).at() == 0,
    {
        self.adopt(None);
    }

    /// How long the frame shown stays, where there is another to follow.
    pub fn delay_ms(&self) -> (r: Option<u32>)
        ensures
            r == shown_delay(self.frames(), self.at()),
    {
        proof {
            use_type_invariant(self);
        }
        if self.delays.len() > 1 {
            Some(self.delays[self.index])
        } else {
            None
        }
    }

    /// The frame to upload next: the one after, around the loop.
    pub fn next_frame(&self) -> (r: Option<usize>)
        ensures
            self.frames().len() <= 1 ==> r is None,
            self.frames().len() > 1 ==> (r matches Some(n) && n == next_index(
                self.frames().len() as int,
                self.at(),
            ) && n < self.frames().len()),
    {
        proof {
            use_type_invariant(self);
        }
        let n = self.delays.len();
        if n <= 1 {
            return None;
        }
        Some(
            if self.index + 1 < n {
                self.index + 1
            } else {
                0
            },
        )
    }

    /// Move to the next frame once its upload is decided; a refused one leaves the frame shown.
    /// Gives the delay of the frame that is shown then.
    pub fn advance_frame(&mut self, uploaded: bool) -> (r: Option<u32>)
        ensures
            final(self).frames() == old(self).frames(),
            final(self).at() == if uploaded && old(self).frames().len() > 1 {
                next_index(old(self).frames().len() as int, old(self).at())
            } else {
                old(self).at()
            },
            r == shown_delay(final(self).frames(), final(self).at()),
    {
        match self.next_frame() {
            Some(next) => {
                if uploaded {
                    self.index = next;
                }
            },
            None => {},
        }
        self.delay_ms()
    }
}

/// The delay of frame `i` of an animation; a still image has none.
pub open spec fn shown_delay(frames: Seq<u32>, i: int) -> Option<u32> {
    if frames.len() > 1 {
        Some(frames[i])
    } else {
        None
    }
}

/// The frame after `i` around a loop of `n`.
pub open spec fn next_index(n: int, i: int) -> int {
    if i + 1 < n {
        i + 1
    } else {
        0
    }
}

/// The frame `k` uploads after frame `i`.
pub open spec fn frame_after(n: int, i: int, k: nat) -> int
    decreases k,
{
    if k == 0 {
        i
    } else {
        next_index(n, frame_after(n, i, (k - 1) as nat))
    }
}

/// Playback goes through every frame and is back at the first after one round.
pub proof fn law_animation_loops(n: int, k: nat)
    requires
        n > 0,
        k <= n,
    ensures
        frame_after(n, 0, k) == if k < n {
            k as int
        } else {
            0
        },
    decreases k,
{
    if k > 0 {
        law_animation_loops(n, (k - 1) as nat);
    }
}

/// When a frame shown at `now` falls due, in milliseconds: a delay of nothing counts as one.
pub open spec fn deadline(now: u64, delay_ms: u32) -> int {
    now + if delay_ms > 1 {
        delay_ms as int
    } else {
        1
    }
}

/// When a frame shown at `now` falls due.
pub fn anim_deadline(now: u64, delay_ms: u32) -> (at: u64)
    requires
        now + delay_ms < u64::MAX,
    ensures
        at == deadline(now, delay_ms),
{
    now + if delay_ms > 1 {
        delay_ms as u64
    } else {
        1
    }
}

/// The numbers of the timers that a window waits for, one of each kind at most.
#[derive(Debug, Clone, Copy, PartialEq, Eq, Structural)]
pub struct Awaited {
    pub anim: Option<u64>,
    pub flipbook: Option<u64>,
    pub caret: Option<u64>,
}

/// The number awaited of a kind.
pub open spec fn awaited(a: Awaited, kind: TimerKind) -> Option<u64> {
    match kind {
        TimerKind::Anim => a.anim,
        TimerKind::Flipbook => a.flipbook,
        TimerKind::Caret => a.caret,
    }
}

/// The timers with that of one kind replaced.
pub open spec fn awaiting(a: Awaited, kind: TimerKind, seq: Option<u64>) -> Awaited {
    match kind {
        TimerKind::Anim => Awaited { anim: seq, ..a },
        TimerKind::Flipbook => Awaited { flipbook: seq, ..a },
        TimerKind::Caret => Awaited { caret: seq, ..a },
    }
}

impl Awaited {
    /// Nothing is awaited.
    pub fn none() -> (a: Self)
        ensures
            a == (Awaited { anim: None, flipbook: None, caret: None }),
    {
        Awaited { anim: None, flipbook: None, caret: None }
    }

    /// Arm the timer of a kind in the queue; one that was pending is no longer awaited.
    pub fn arm(&mut self, queue: &mut TimerQueue, window: u64, kind: TimerKind, at: u64)
        requires
            old(queue).last_seq() < u64::MAX,
        ensures
            *final(self) == awaiting(*old(self), kind, Some((old(queue).last_seq() + 1) as u64)),
            final(queue).last_seq() == old(queue).last_seq() + 1,
            final(queue).pending() == old(queue).pending().insert(
                crate::timers::Timer {
                    at,
                    seq: (old(queue).last_seq() + 1) as u64,
                    window,
                    kind,
                },
            ),
    {
        let seq = queue.arm(window, kind, at);
        self.set(kind, Some(seq));
    }

    fn set(&mut self, kind: TimerKind, seq: Option<u64>)
        ensures
            *final(self) == awaiting(*old(self), kind, seq),
    {
        match kind {
            TimerKind::Anim => self.anim = seq,
            TimerKind::Flipbook => self.flipbook = seq,
            TimerKind::Caret => self.caret = seq,
        }
    }

    /// Stop waiting for the timer of a kind. Its entry in the queue is dropped when it pops.
    pub fn kill(&mut self, kind: TimerKind)
        ensures
            *final(self) == awaiting(*old(self), kind, None),
    {
        self.set(kind, None);
    }

    /// A timer fell due: whether it is the one awaited, which it then no longer is.
    pub fn take(&mut self, kind: TimerKind, seq: u64) -> (r: bool)
        ensures
            r == (awaited(*old(self), kind) == Some(seq)),
            r ==> *final(self) == awaiting(*old(self), kind, None),
            !r ==> *final(self) == *old(self),
    {
        let current = match kind {
            TimerKind::Anim => self.anim,
            TimerKind::Flipbook => self.flipbook,
            TimerKind::Caret => self.caret,
        };
        let hit = match current {
            Some(n) => n == seq,
            None => false,
        };
        if hit {
            self.set(kind, None);
        }
        hit
    }
}

/// A timer that was armed before the pending one of its kind, or that was killed, does nothing.
pub proof fn law_stale_timers_are_dropped(a: Awaited, kind: TimerKind, older: u64, newer: u64)
    requires
        older < newer,
    ensures
        awaited(awaiting(a, kind, Some(newer)), kind) != Some(older),
        awaited(awaiting(a, kind, None), kind) != Some(older),
        forall|other: TimerKind|
            other != kind ==> #[trigger] awaited(awaiting(a, kind, None), other) == awaited(
                a,
                other,
            ),
{
}

/// The frames that a window still owes. Input asks for a few, so that hover and active states
/// settle; at zero the window draws nothing.
#[derive(Debug, Clone, Copy, PartialEq, Eq, Structural)]
pub struct Pump {
    pub wanted: u8,
}

/// The debt after a request of `n` frames.
pub open spec fn owed(wanted: u8, n: u8) -> u8 {
    if wanted < n {
        n
    } else {
        wanted
    }
}

impl Pump {
    /// Ask for `n` frames: a request raises the debt, it does not add to it.
    pub fn request_frames(&mut self, n: u8)
        ensures
            final(self).wanted == owed(old(self).wanted, n),
    {
        if self.wanted < n {
            self.wanted = n;
        }
    }

    /// A frame was drawn. Tells whether one more is owed.
    pub fn drawn(&mut self) -> (more: bool)
        ensures
            final(self).wanted == if old(self).wanted > 0 {
                (old(self).wanted - 1) as u8
            } else {
                0u8
            },
            more == (final(self).wanted > 0),
    {
        if self.wanted > 0 {
            self.wanted -= 1;
        }
        self.wanted > 0
    }
}

/// The debt after `k` frames.
pub open spec fn debt_after(wanted: u8, k: nat) -> int {
    if wanted > k {
        wanted - k
    } else {
        0
    }
}

/// Without a new request the frames come to an end: as many as were owed are drawn, then none.
pub proof fn law_frames_terminate(wanted: u8, k: nat)
    ensures
        debt_after(wanted, 0) == wanted,
        debt_after(wanted, k + 1) == if debt_after(wanted, k) > 0 {
            debt_after(wanted, k) - 1
        } else {
            0
        },
        debt_after(wanted, wanted as nat) == 0,
{
}

/// The session's flipbook settings by image path.
pub struct Books {
    entries: Vec<(String, PerPath)>,
}

/// The settings that a list of entries holds, a later entry of a path before an earlier.
pub open spec fn books_map(entries: Seq<(String, PerPath)>) -> Map<Seq<char>, PerPath>
    decreases entries.len(),
{
    if entries.len() == 0 {
        Map::empty()
    } else {
        books_map(entries.drop_last()).insert(entries.last().0@, entries.last().1)
    }
}

/// Each path has one entry.
pub open spec fn one_each(entries: Seq<(String, PerPath)>) -> bool {
    forall|i: int, j: int|
        0 <= i < j < entries.len() ==> (#[trigger] entries[i]).0@ != (#[trigger] entries[j]).0@
}

proof fn lemma_books_map(entries: Seq<(String, PerPath)>)
    requires
        one_each(entries),
    ensures
        forall|i: int|
            0 <= i < entries.len() ==> #[trigger] books_map(entries).contains_key(entries[i].0@)
                && books_map(entries)[entries[i].0@] == entries[i].1,
        forall|p: Seq<char>|
            books_map(entries).contains_key(p) ==> exists|i: int|
                0 <= i < entries.len() && (#[trigger] entries[i]).0@ == p,
    decreases entries.len(),
{
    if entries.len() > 0 {
        let front = entries.drop_last();
        lemma_books_map(front);
        assert forall|i: int| 0 <= i < entries.len() implies #[trigger] books_map(
            entries,
        ).contains_key(entries[i].0@) && books_map(entries)[entries[i].0@] == entries[i].1 by {
            if i < front.len() {
                assert(front[i] == entries[i]);
                assert(books_map(front).contains_key(front[i].0@));
                assert(entries[i].0@ != entries[entries.len() - 1].0@);
            }
        }
        assert forall|p: Seq<char>| books_map(entries).contains_key(p) implies exists|i: int|
            0 <= i < entries.len() && (#[trigger] entries[i]).0@ == p by {
            if p == entries.last().0@ {
                assert(entries[entries.len() - 1].0@ == p);
            } else {
                assert(books_map(front).contains_key(p));
                let i = choose|i: int| 0 <= i < front.len() && (#[trigger] front[i]).0@ == p;
                assert(entries[i].0@ == p);
            }
        }
    }
}

proof fn lemma_books_replace(entries: Seq<(String, PerPath)>, i: int, value: (String, PerPath))
    requires
        one_each(entries),
        0 <= i < entries.len(),
        value.0@ == entries[i].0@,
    ensures
        one_each(entries.update(i, value)),
        books_map(entries.update(i, value)) == books_map(entries).insert(value.0@, value.1),
{
    let after = entries.update(i, value);
    assert forall|a: int, b: int| 0 <= a < b < after.len() implies (#[trigger] after[a]).0@ != (
    #[trigger] after[b]).0@ by {
        assert(entries[a].0@ != entries[b].0@);
    }
    lemma_books_map(entries);
    lemma_books_map(after);
    let m = books_map(after);
    let w = books_map(entries).insert(value.0@, value.1);
    assert forall|p: Seq<char>| #[trigger] m.contains_key(p) <==> w.contains_key(p) by {
        if m.contains_key(p) {
            let k = choose|k: int| 0 <= k < after.len() && (#[trigger] after[k]).0@ == p;
            assert(books_map(entries).contains_key(entries[k].0@));
        }
        if w.contains_key(p) && p != value.0@ {
            let k = choose|k: int| 0 <= k < entries.len() && (#[trigger] entries[k]).0@ == p;
            assert(after[k].0@ == p);
            assert(m.contains_key(after[k].0@));
        }
        if p == value.0@ {
            assert(m.contains_key(after[i].0@));
        }
    }
    assert forall|p: Seq<char>| #[trigger] m.contains_key(p) implies m[p] == w[p] by {
        let k = choose|k: int| 0 <= k < after.len() && (#[trigger] after[k]).0@ == p;
        assert(m[after[k].0@] == after[k].1);
        if k != i {
            assert(entries[k].0@ != entries[i].0@) by {
                if k < i {
                    assert(entries[k].0@ != entries[i].0@);
                } else {
                    assert(entries[i].0@ != entries[k].0@);
                }
            }
            assert(books_map(entries).contains_key(entries[k].0@));
        }
    }
    assert(m =~= w);
}

/// The settings of a path: those on file, or the defaults.
pub open spec fn book_of(books: Map<Seq<char>, PerPath>, path: Seq<char>) -> PerPath {
    if books.contains_key(path) {
        books[path]
    } else {
        PerPath { enabled: false, state: None, hint: None, hint_dismissed: false }
    }
}

impl Books {
    #[verifier::type_invariant]
    spec fn valid(self) -> bool {
        &&& one_each(self.entries@)
        &&& forall|i: int|
            0 <= i < self.entries.len() ==> is_sound((#[trigger] self.entries@[i]).1)
    }

    /// The settings by path.
    pub closed spec fn map(self) -> Map<Seq<char>, PerPath> {
        books_map(self.entries@)
    }

    /// No settings.
    pub fn new() -> (b: Self)
        ensures
            b.map() == Map::<Seq<char>, PerPath>::empty(),
    {
        Books { entries: Vec::new() }
    }

    fn find(&self, path: &str) -> (r: Option<usize>)
        ensures
            r matches Some(i) ==> i < self.entries.len() && self.entries@[i as int].0@ == path@,
            r is None ==> forall|i: int|
                0 <= i < self.entries.len() ==> (#[trigger] self.entries@[i]).0@ != path@,
    {
        let mut i: usize = 0;
        while i < self.entries.len()
            invariant
                i <= self.entries.len(),
                forall|k: int| 0 <= k < i ==> (#[trigger] self.entries@[k]).0@ != path@,
            decreases self.entries.len() - i,
        {
            if same_text(self.entries[i].0.as_str(), path) {
                return Some(i);
            }
            i += 1;
        }
        None
    }

    /// The settings of a path, the defaults where it has none. A state among them has everything in range.
    pub fn get(&self, path: &str) -> (r: PerPath)
        ensures
            r == book_of(self.map(), path@),
            is_sound(r),
    {
        proof {
            use_type_invariant(self);
            lemma_books_map(self.entries@);
        }
        match self.find(path) {
            Some(i) => {
                assert(self.map().contains_key(self.entries@[i as int].0@));
                self.entries[i].1
            },
            None => PerPath::default(),
        }
    }

    /// Set the settings of a path.
    pub fn set(&mut self, path: &str, book: PerPath)
        requires
            is_sound(book),
        ensures
            final(self).map() == old(self).map().insert(path@, book),
    {
        proof {
            use_type_invariant(&*self);
        }
        let at = self.find(path);
        let mut entries: Vec<(String, PerPath)> = Vec::new();
        std::mem::swap(&mut entries, &mut self.entries);
        let ghost was = entries@;
        let mut key = String::new();
        key.append(path);
        assert(key@ =~= path@);
        match at {
            Some(i) => {
                proof {
                    lemma_books_replace(was, i as int, (key, book));
                }
                entries.set(i, (key, book));
            },
            None => {
                let ghost added = (key, book);
                entries.push((key, book));
                assert(entries@.drop_last() =~= was);
                assert(entries@.last() == added);
            },
        }
        self.entries = entries;
    }
}

/// The state of a sheet that is being viewed as one.
pub open spec fn active_state(b: PerPath) -> Option<FlipbookState> {
    if b.enabled {
        b.state
    } else {
        None
    }
}

/// Whether playback moves.
pub open spec fn is_playing(s: Option<FlipbookState>) -> bool {
    s matches Some(f) && f.playing && f.frame_count > 1
}

/// What the surface draws of a state.
pub open spec fn surface_params(s: Option<FlipbookState>) -> Option<FlipbookParams> {
    match s {
        Some(f) => Some(
            FlipbookParams {
                grid: f.grid,
                frame_count: f.frame_count,
                frame_pos: f.frame_pos,
                blend: f.blend,
            },
        ),
        None => None,
    }
}

/// What the surface draws of a state.
pub fn surface_flipbook(s: Option<FlipbookState>) -> (r: Option<FlipbookParams>)
    ensures
        r == surface_params(s),
{
    match s {
        Some(f) => Some(
            FlipbookParams {
                grid: f.grid,
                frame_count: f.frame_count,
                frame_pos: f.frame_pos,
                blend: f.blend,
            },
        ),
        None => None,
    }
}

/// The settings after flipbook mode was switched. Entering for the first time seeds the state from
/// the detected grid, or from 8 by 8, and from the defaults `d`; entering answers the hint. Leaving
/// stops playback and keeps the settings.
pub open spec fn toggled(b: PerPath, d: FlipbookCfg) -> PerPath {
    if b.enabled {
        PerPath {
            enabled: false,
            state: match b.state {
                Some(s) => Some(FlipbookState { playing: false, ..s }),
                None => None,
            },
            ..b
        }
    } else {
        PerPath {
            enabled: true,
            hint_dismissed: true,
            state: match b.state {
                Some(s) => Some(s),
                None => Some(
                    crate::flipbook::seeded_flipbook(
                        match b.hint {
                            Some(g) => g,
                            None => Grid { cols: 8, rows: 8 },
                        },
                        d,
                    ),
                ),
            },
            ..b
        }
    }
}

impl PerPath {
    /// The state, while the mode is on.
    pub fn active(&self) -> (r: Option<FlipbookState>)
        ensures
            r == active_state(*self),
    {
        if self.enabled {
            self.state
        } else {
            None
        }
    }

    /// The settings after the mode was switched.
    pub fn toggle(&self, d: FlipbookCfg) -> (r: PerPath)
        ensures
            r == toggled(*self, d),
            is_sound(*self) ==> is_sound(r),
    {
        if self.enabled {
            PerPath {
                enabled: false,
                state: match self.state {
                    Some(s) => Some(FlipbookState { playing: false, ..s }),
                    None => None,
                },
                hint: self.hint,
                hint_dismissed: self.hint_dismissed,
            }
        } else {
            PerPath {
                enabled: true,
                hint_dismissed: true,
                state: match self.state {
                    Some(s) => Some(s),
                    None => Some(
                        FlipbookState::seeded(
                            match self.hint {
                                Some(g) => g,
                                None => Grid::new(8, 8),
                            },
                            d,
                        ),
                    ),
                },
                hint: self.hint,
            }
        }
    }

    /// The grid to offer in the hint: none while the mode is on or once it was answered.
    pub fn chip_hint(&self) -> (r: Option<Grid>)
        ensures
            r == if self.enabled || self.hint_dismissed {
                None
            } else {
                self.hint
            },
    {
        if self.enabled || self.hint_dismissed {
            None
        } else {
            self.hint
        }
    }
}

/// Leaving flipbook mode and coming back finds every setting but playback as it was.
pub proof fn law_reentry_keeps_settings(b: PerPath, d: FlipbookCfg, e: FlipbookCfg)
    requires
        b.enabled,
        b.state is Some,
    ensures
        toggled(toggled(b, d), e) == (PerPath {
            hint_dismissed: true,
            state: Some(FlipbookState { playing: false, ..b.state->0 }),
            ..b
        }),
        active_state(toggled(b, d)) is None,
{
}

/// Changed defaults never disturb a flipbook that was set up before.
pub proof fn law_defaults_spare_set_up_flipbooks(b: PerPath, d: FlipbookCfg, e: FlipbookCfg)
    requires
        b.state is Some,
    ensures
        toggled(b, d) == toggled(b, e),
{
}

/// An edit of the transport.
#[derive(Debug, Clone, Copy, PartialEq, Eq, Structural)]
pub enum TransportEdit {
    SetCols(u32),
    SetRows(u32),
    SetCount(u32),
    SetFps(Single),
    ToggleBlend,
    TogglePlay,
    Pause,
    Scrub(Single),
}

/// Whether the frame count stands for the whole grid.
pub open spec fn follows_grid(s: FlipbookState) -> bool {
    s.frame_count == s.grid.cols * s.grid.rows
}

/// The state after an edit, before it is brought into range. A count that stood for the whole grid
/// still does after the grid changed.
pub open spec fn edited(s: FlipbookState, edit: TransportEdit) -> FlipbookState {
    match edit {
        TransportEdit::SetCols(v) => FlipbookState {
            grid: Grid { cols: v, rows: s.grid.rows },
            frame_count: if follows_grid(s) {
                (v * s.grid.rows) as u32
            } else {
                s.frame_count
            },
            ..s
        },
        TransportEdit::SetRows(v) => FlipbookState {
            grid: Grid { cols: s.grid.cols, rows: v },
            frame_count: if follows_grid(s) {
                (s.grid.cols * v) as u32
            } else {
                s.frame_count
            },
            ..s
        },
        TransportEdit::SetCount(n) => FlipbookState { frame_count: n, ..s },
        TransportEdit::SetFps(f) => FlipbookState { fps: f, ..s },
        TransportEdit::ToggleBlend => FlipbookState { blend: !s.blend, ..s },
        TransportEdit::TogglePlay => FlipbookState { playing: !s.playing, ..s },
        TransportEdit::Pause => FlipbookState { playing: false, ..s },
        TransportEdit::Scrub(pos) => FlipbookState { frame_pos: pos, ..s },
    }
}

/// Whether an edit keeps a following count within 32 bits.
pub open spec fn edit_fits(s: FlipbookState, edit: TransportEdit) -> bool {
    match edit {
        TransportEdit::SetCols(v) => follows_grid(s) ==> v * s.grid.rows <= u32::MAX,
        TransportEdit::SetRows(v) => follows_grid(s) ==> s.grid.cols * v <= u32::MAX,
        _ => true,
    }
}

/// `t` is `s` brought into range.
pub open spec fn is_clamped(s: FlipbookState, t: FlipbookState) -> bool {
    &&& t.grid == crate::flipbook::clamped_grid(s.grid)
    &&& t.frame_count == crate::flipbook::within(
        s.frame_count,
        1,
        crate::flipbook::cell_count(crate::flipbook::clamped_grid(s.grid)) as u32,
    )
    &&& t.fps == crate::flipbook::clamped_rate(s.fps)
    &&& t.blend == s.blend
    &&& t.playing == s.playing
    &&& crate::wrap::is_wrapped(s.frame_pos, t.frame_count as nat, t.frame_pos)
}

/// What an edit calls for besides the new state.
#[derive(Debug, Clone, Copy, PartialEq, Eq, Structural)]
pub enum EditReach {
    /// The grid changed: everything is applied anew.
    Grid,
    /// Only the position moved.
    Position,
    /// What playback resolves against changed.
    Params,
}

pub open spec fn reach(edit: TransportEdit) -> EditReach {
    match edit {
        TransportEdit::SetCols(_) | TransportEdit::SetRows(_) => EditReach::Grid,
        TransportEdit::Scrub(_) => EditReach::Position,
        _ => EditReach::Params,
    }
}

/// Apply an edit to a state and bring the result into range.
pub fn apply_edit(s: FlipbookState, edit: TransportEdit) -> (r: (FlipbookState, EditReach))
    requires
        edit_fits(s, edit),
        s.grid.cols * s.grid.rows <= u32::MAX,
    ensures
        is_clamped(edited(s, edit), r.0),
        r.1 == reach(edit),
        is_settled(r.0),
        edit is ToggleBlend <==> r.0.blend != s.blend,
        edit is TogglePlay ==> r.0.playing != s.playing,
        edit is Pause ==> !r.0.playing,
{
    let mut t = s;
    match edit {
        TransportEdit::SetCols(v) => {
            let follow = t.frame_count == t.grid.cols * t.grid.rows;
            t.grid.cols = v;
            if follow {
                t.frame_count = t.grid.cols * t.grid.rows;
            }
        },
        TransportEdit::SetRows(v) => {
            let follow = t.frame_count == t.grid.cols * t.grid.rows;
            t.grid.rows = v;
            if follow {
                t.frame_count = t.grid.cols * t.grid.rows;
            }
        },
        TransportEdit::SetCount(n) => t.frame_count = n,
        TransportEdit::SetFps(f) => t.fps = f,
        TransportEdit::ToggleBlend => t.blend = !t.blend,
        TransportEdit::TogglePlay => t.playing = !t.playing,
        TransportEdit::Pause => t.playing = false,
        TransportEdit::Scrub(pos) => t.frame_pos = pos,
    }
    assert(t == edited(s, edit));
    t.clamp();
    let what = match edit {
        TransportEdit::SetCols(_) | TransportEdit::SetRows(_) => EditReach::Grid,
        TransportEdit::Scrub(_) => EditReach::Position,
        _ => EditReach::Params,
    };
    (t, what)
}

/// A count that stands for the whole grid goes on doing so through every edit of the grid.
pub proof fn law_full_count_follows(s: FlipbookState, v: u32, t: FlipbookState)
    requires
        is_settled(s),
        follows_grid(s),
        1 <= v <= crate::flipbook::GRID_MAX,
        is_clamped(edited(s, TransportEdit::SetCols(v)), t) || is_clamped(
            edited(s, TransportEdit::SetRows(v)),
            t,
        ),
    ensures
        follows_grid(t),
{
    assert(1 <= v * s.grid.rows <= 4096 && 1 <= s.grid.cols * v <= 4096) by (nonlinear_arith)
        requires
            1 <= v <= 64,
            1 <= s.grid.rows <= 64,
            1 <= s.grid.cols <= 64,
    ;
}

/// An edit of anything but the grid leaves the grid, so the view is not framed anew.
pub proof fn law_only_grid_edits_refit(s: FlipbookState, edit: TransportEdit, t: FlipbookState)
    requires
        is_settled(s),
        is_clamped(edited(s, edit), t),
        reach(edit) != EditReach::Grid,
    ensures
        t.grid == s.grid,
{
}

/// `x` is the whole number `n`.
pub open spec fn is_whole(x: Single, n: nat) -> bool {
    &&& crate::single::is_finite(x)
    &&& !crate::single::is_negative(x)
    &&& crate::wrap::scaled(x) == n * crate::wrap::scale(x)
}

/// A whole number below `2^24` in single precision, which holds it exactly.
pub fn whole_single(n: u32) -> (x: Single)
    requires
        n < 0x100_0000,
    ensures
        is_whole(x, n as nat),
{
    if n == 0 {
        let x = Single { bits: 0 };
        proof {
            let one = pow2(crate::ratio::up(-149));
            assert(0 * one == 0 && 0 * crate::wrap::scale(x) == 0) by (nonlinear_arith);
        }
        return x;
    }
    let mut sig = n;
    let mut k: u32 = 0;
    proof {
        crate::ratio::lemma_pow2_next(0);
        assert(n * 1 == n);
        vstd::arithmetic::power2::lemma2_to64();
    }
    while sig < 0x80_0000
        invariant
            0 < n <= sig < 0x100_0000,
            k <= 24,
            sig == n * pow2(k as nat),
            pow2(k as nat) <= sig,
        decreases 0x100_0000 - sig,
    {
        proof {
            crate::ratio::lemma_pow2_next(k as nat);
            assert(n * (2 * pow2(k as nat)) == 2 * (n * pow2(k as nat))) by (nonlinear_arith);
            if k == 24 {
                vstd::arithmetic::power2::lemma2_to64();
            }
        }
        sig = 2 * sig;
        k += 1;
    }
    let x = pack(false, sig, -(k as i32));
    proof {
        let e = crate::single::exponent(x);
        assert(crate::ratio::up(e) == 0 && crate::ratio::down(e) == k as nat);
        assert(sig * pow2(0) == sig) by {
            vstd::arithmetic::power2::lemma2_to64();
            assert(sig * 1 == sig);
        }
    }
    x
}

/// The whole part of a whole number is the number.
pub proof fn lemma_whole_part(x: Single, n: nat)
    requires
        is_whole(x, n),
    ensures
        crate::wrap::whole_part(x) == n,
{
    let d = crate::wrap::scale(x);
    vstd::arithmetic::power2::lemma_pow2_pos(crate::ratio::down(crate::single::exponent(x)));
    vstd::arithmetic::div_mod::lemma_div_multiples_vanish(n as int, d as int);
    assert(d * n == n * d) by (nonlinear_arith);
}

/// Whether the state on file, if there is one, has everything in range.
pub open spec fn is_sound(b: PerPath) -> bool {
    b.state matches Some(s) ==> is_settled(s)
}

/// The frame one step from the one shown, around the loop.
pub open spec fn step_frame(s: FlipbookState, delta: int) -> nat {
    ((crate::wrap::whole_part(s.frame_pos) + delta) % s.frame_count as int) as nat
}

/// The position a step away: the exact frame, around the loop.
pub fn stepped_position(s: FlipbookState, delta: i32) -> (pos: Single)
    requires
        is_settled(s),
    ensures
        is_whole(pos, step_frame(s, delta as int)),
        step_frame(s, delta as int) < s.frame_count,
{
    proof {
        assert(s.grid.cols * s.grid.rows <= 4096) by (nonlinear_arith)
            requires
                1 <= s.grid.cols <= 64,
                1 <= s.grid.rows <= 64,
        ;
        assert(crate::single::is_negative(s.frame_pos) ==> s.frame_pos.bits == 0x8000_0000u32);
    }
    let (whole, _rest) = fraction(s.frame_pos);
    let count = s.frame_count as i64;
    let sum: i64 = whole as i64 + delta as i64;
    let left: i64 = if sum >= 0 {
        sum % count
    } else {
        let short = (-sum) % count;
        if short == 0 {
            0
        } else {
            count - short
        }
    };
    proof {
        if sum < 0 {
            lemma_wrapped_below(sum as int, count as int);
        }
        vstd::arithmetic::div_mod::lemma_mod_bound(sum as int, count as int);
    }
    whole_single(left as u32)
}

proof fn lemma_wrapped_below(sum: int, count: int)
    requires
        sum < 0,
        count > 0,
    ensures
        sum % count == if (-sum) % count == 0 {
            0
        } else {
            count - (-sum) % count
        },
{
    let short = (-sum) % count;
    let q = (-sum) / count;
    vstd::arithmetic::div_mod::lemma_fundamental_div_mod(-sum, count);
    vstd::arithmetic::div_mod::lemma_mod_bound(-sum, count);
    if short == 0 {
        assert(sum == (-q) * count + 0) by (nonlinear_arith)
            requires
                -sum == count * q + short,
                short == 0,
        ;
        vstd::arithmetic::div_mod::lemma_fundamental_div_mod_converse(sum, count, -q, 0);
    } else {
        assert(sum == (-q - 1) * count + (count - short)) by (nonlinear_arith)
            requires
                -sum == count * q + short,
        ;
        vstd::arithmetic::div_mod::lemma_fundamental_div_mod_converse(
            sum,
            count,
            -q - 1,
            count - short,
        );
    }
}

/// Scrubbing to a frame of the loop lands on exactly that frame, and on the loop.
pub proof fn law_scrub_lands_on_frame(s: FlipbookState, pos: Single, n: nat, t: FlipbookState)
    requires
        is_settled(s),
        is_whole(pos, n),
        n < s.frame_count,
        is_clamped(edited(s, TransportEdit::Scrub(pos)), t),
    ensures
        t.frame_pos == pos,
        crate::wrap::whole_part(t.frame_pos) == n,
        t == (FlipbookState {
            frame_pos: pos,
            ..s
        }),
{
    lemma_whole_part(pos, n);
    crate::wrap::law_wrapping_settles(pos, s.frame_count as nat, t.frame_pos);
    let d = crate::wrap::scale(pos);
    vstd::arithmetic::power2::lemma_pow2_pos(crate::ratio::down(crate::single::exponent(pos)));
    assert(1 <= s.grid.cols * s.grid.rows <= 4096) by (nonlinear_arith)
        requires
            1 <= s.grid.cols <= 64,
            1 <= s.grid.rows <= 64,
    ;
    assert(n * d < s.frame_count * d) by (nonlinear_arith)
        requires
            n < s.frame_count,
            d > 0,
    ;
}

/// Bringing a state into range leaves everything in range, and one that is in range as it is:
/// doing it twice changes nothing more.
pub proof fn law_clamping_settles(s: FlipbookState, t: FlipbookState)
    requires
        is_clamped(s, t),
    ensures
        is_settled(t),
        is_settled(s) ==> t == s,
{
    crate::flipbook::lemma_cells_in_range(crate::flipbook::clamped_grid(s.grid));
    crate::wrap::law_wrapped_lies_on_loop(s.frame_pos, t.frame_count as nat, t.frame_pos);
    if is_settled(s) {
        crate::wrap::law_wrapping_settles(s.frame_pos, t.frame_count as nat, t.frame_pos);
    }
}

/// A position that time leads to, wrapped around the loop, lies on it.
pub proof fn law_playback_stays_on_loop(s: FlipbookState, to: Single, p: Single)
    requires
        is_settled(s),
        crate::wrap::is_wrapped(to, s.frame_count as nat, p),
    ensures
        is_settled(FlipbookState { frame_pos: p, ..s }),
{
    crate::wrap::law_wrapped_lies_on_loop(to, s.frame_count as nat, p);
}

/// Stepping and stepping back shows the same frame again.
pub proof fn law_steps_undo(s: FlipbookState, t: FlipbookState, delta: int)
    requires
        is_settled(s),
        t.frame_count == s.frame_count,
        crate::wrap::whole_part(t.frame_pos) == step_frame(s, delta),
    ensures
        step_frame(t, -delta) == crate::wrap::whole_part(s.frame_pos),
{
    let n = s.frame_count as int;
    let w = crate::wrap::whole_part(s.frame_pos) as int;
    vstd::arithmetic::div_mod::lemma_mod_bound(w + delta, n);
    vstd::arithmetic::div_mod::lemma_add_mod_noop(w + delta, -delta, n);
    vstd::arithmetic::div_mod::lemma_add_mod_noop((w + delta) % n, -delta, n);
    vstd::arithmetic::div_mod::lemma_mod_twice(w + delta, n);
    vstd::arithmetic::div_mod::lemma_small_mod(w as nat, n as nat);
}

/// What the transport band is drawn from.
#[derive(Debug, Clone, Copy, PartialEq, Eq, Structural)]
pub struct TransportSnapshot {
    pub cols: u32,
    pub rows: u32,
    pub frame_count: u32,
    pub fps: Single,
    pub blend: bool,
    pub playing: bool,
    pub frame_pos: Single,
    pub grid_max: u32,
}

/// What the transport band is drawn from.
pub fn transport_snapshot(s: Option<FlipbookState>) -> (r: Option<TransportSnapshot>)
    ensures
        r == match s {
            Some(f) => Some(
                TransportSnapshot {
                    cols: f.grid.cols,
                    rows: f.grid.rows,
                    frame_count: f.frame_count,
                    fps: f.fps,
                    blend: f.blend,
                    playing: f.playing,
                    frame_pos: f.frame_pos,
                    grid_max: crate::flipbook::GRID_MAX,
                },
            ),
            None => None,
        },
{
    match s {
        Some(f) => Some(
            TransportSnapshot {
                cols: f.grid.cols,
                rows: f.grid.rows,
                frame_count: f.frame_count,
                fps: f.fps,
                blend: f.blend,
                playing: f.playing,
                frame_pos: f.frame_pos,
                grid_max: crate::flipbook::GRID_MAX,
            },
        ),
        None => None,
    }
}

/// Every edit of the transport changes what it is for, as far as it is in range, and leaves the rest
/// of a state that was in range: the two toggles flip their switch, a pause stops, a rate, a count
/// and a position are taken as they are.
pub proof fn law_edits_do_what_they_say(s: FlipbookState, edit: TransportEdit, t: FlipbookState)
    requires
        is_settled(s),
        is_clamped(edited(s, edit), t),
    ensures
        edit is ToggleBlend ==> t.blend != s.blend && t == (FlipbookState { blend: t.blend, ..s }),
        !(edit is ToggleBlend) ==> t.blend == s.blend,
        edit is TogglePlay ==> t.playing != s.playing && t == (FlipbookState {
            playing: t.playing,
            ..s
        }),
        edit is Pause ==> !t.playing && t == (FlipbookState { playing: t.playing, ..s }),
        !(edit is TogglePlay || edit is Pause) ==> t.playing == s.playing,
        edit matches TransportEdit::SetFps(f) ==> t == (FlipbookState { fps: t.fps, ..s }) && (
        crate::single::in_range(
            f,
            Single { bits: crate::config::FPS_MIN },
            Single { bits: crate::config::FPS_MAX },
        ) ==> t.fps == f),
        !(edit is SetFps) ==> t.fps == s.fps,
        edit matches TransportEdit::SetCount(n) ==> t == (FlipbookState {
            frame_count: t.frame_count,
            frame_pos: t.frame_pos,
            ..s
        }) && (1 <= n <= s.grid.cols * s.grid.rows ==> t.frame_count == n),
        !(edit is Scrub) && crate::wrap::whole_part(s.frame_pos) < t.frame_count ==> t.frame_pos
            == s.frame_pos,
        edit matches TransportEdit::Scrub(p) ==> t == (FlipbookState { frame_pos: t.frame_pos, ..s })
            && (is_settled(FlipbookState { frame_pos: p, ..s }) ==> t.frame_pos == p),
{
    law_clamping_settles(edited(s, edit), t);
    crate::flipbook::lemma_cells_in_range(s.grid);
    if !(edit is Scrub) && crate::wrap::whole_part(s.frame_pos) < t.frame_count {
        crate::wrap::law_wrapping_settles(s.frame_pos, t.frame_count as nat, t.frame_pos);
    }
}

/// Toggling blending or playback twice restores the state.
pub proof fn law_toggles_undo(
    s: FlipbookState,
    edit: TransportEdit,
    t: FlipbookState,
    u: FlipbookState,
)
    requires
        is_settled(s),
        edit is ToggleBlend || edit is TogglePlay,
        is_clamped(edited(s, edit), t),
        is_clamped(edited(t, edit), u),
    ensures
        u == s,
{
    law_edits_do_what_they_say(s, edit, t);
    law_edits_do_what_they_say(t, edit, u);
}

/// An edit of one axis of the grid sets that axis and leaves the other; a count that did not stand
/// for the whole grid stays, as far as the cells go.
pub proof fn law_grid_edits_set_their_axis(s: FlipbookState, edit: TransportEdit, t: FlipbookState)
    requires
        is_settled(s),
        is_clamped(edited(s, edit), t),
    ensures
        edit matches TransportEdit::SetCols(v) ==> t.grid.rows == s.grid.rows && (1 <= v <= 64
            ==> t.grid.cols == v) && (v > 64 ==> t.grid.cols == 64) && (v == 0 ==> t.grid.cols == 1),
        edit matches TransportEdit::SetRows(v) ==> t.grid.cols == s.grid.cols && (1 <= v <= 64
            ==> t.grid.rows == v) && (v > 64 ==> t.grid.rows == 64) && (v == 0 ==> t.grid.rows == 1),
        (edit is SetCols || edit is SetRows) && !follows_grid(s) && s.frame_count <= t.grid.cols
            * t.grid.rows ==> t.frame_count == s.frame_count,
        !(edit is SetCols || edit is SetRows) ==> t.grid == s.grid,
{
    crate::flipbook::lemma_cells_in_range(t.grid);
}

/// What an edit calls for is what it changed: everything anew for the grid, only the position for a
/// scrub, the parameters for the rest.
pub proof fn law_edits_reach_what_they_change(edit: TransportEdit)
    ensures
        reach(edit) == EditReach::Grid <==> edit is SetCols || edit is SetRows,
        reach(edit) == EditReach::Position <==> edit is Scrub,
        reach(edit) == EditReach::Params <==> edit is SetCount || edit is SetFps
            || edit is ToggleBlend || edit is TogglePlay || edit is Pause,
{
}

/// A step forward shows the next frame and from the last one the first; a step back shows the frame
/// before and from the first one the last; a whole round shows the same frame.
pub proof fn law_steps_go_frame_by_frame(s: FlipbookState)
    requires
        is_settled(s),
    ensures
        crate::wrap::whole_part(s.frame_pos) + 1 < s.frame_count ==> step_frame(s, 1)
            == crate::wrap::whole_part(s.frame_pos) + 1,
        crate::wrap::whole_part(s.frame_pos) + 1 == s.frame_count ==> step_frame(s, 1) == 0,
        crate::wrap::whole_part(s.frame_pos) > 0 ==> step_frame(s, -1) == crate::wrap::whole_part(
            s.frame_pos,
        ) - 1,
        crate::wrap::whole_part(s.frame_pos) == 0 ==> step_frame(s, -1) == s.frame_count - 1,
        step_frame(s, 0) == crate::wrap::whole_part(s.frame_pos),
        step_frame(s, s.frame_count as int) == crate::wrap::whole_part(s.frame_pos),
{
    let n = s.frame_count as int;
    let w = crate::wrap::whole_part(s.frame_pos) as int;
    if w + 1 < n {
        vstd::arithmetic::div_mod::lemma_small_mod((w + 1) as nat, n as nat);
    } else {
        vstd::arithmetic::div_mod::lemma_mod_self_0(n);
    }
    if w > 0 {
        vstd::arithmetic::div_mod::lemma_small_mod((w - 1) as nat, n as nat);
    } else {
        vstd::arithmetic::div_mod::lemma_mod_add_multiples_vanish(-1, n);
        vstd::arithmetic::div_mod::lemma_small_mod((n - 1) as nat, n as nat);
    }
    vstd::arithmetic::div_mod::lemma_small_mod(w as nat, n as nat);
    vstd::arithmetic::div_mod::lemma_mod_add_multiples_vanish(w, n);
    assert(n + w == w + n);
}

/// Switching flipbook mode always switches it: entering makes the state active and answers the hint,
/// leaving makes none active and stops playback; the hint itself is kept.
pub proof fn law_mode_switches(b: PerPath, d: FlipbookCfg)
    ensures
        toggled(b, d).enabled != b.enabled,
        toggled(b, d).hint == b.hint,
        b.enabled ==> active_state(toggled(b, d)) is None && toggled(b, d).hint_dismissed
            == b.hint_dismissed && !is_playing(toggled(b, d).state),
        b.enabled ==> (toggled(b, d).state is Some <==> b.state is Some),
        !b.enabled ==> active_state(toggled(b, d)) is Some && toggled(b, d).hint_dismissed,
        !b.enabled && b.state is Some ==> active_state(toggled(b, d)) == b.state,
{
}

/// A flipbook that is set up for the first time takes the grid of its hint, or eight by eight, shows
/// all its cells from the first, and plays and blends as the settings say.
pub proof fn law_first_entry_adopts_hint(b: PerPath, d: FlipbookCfg)
    requires
        !b.enabled,
        b.state is None,
    ensures
        active_state(toggled(b, d)) matches Some(s) && {
            &&& b.hint is None ==> s.grid.cols == 8 && s.grid.rows == 8
            &&& b.hint matches Some(g) ==> (1 <= g.cols <= 64 && 1 <= g.rows <= 64 ==> s.grid == g)
            &&& s.frame_count == s.grid.cols * s.grid.rows
            &&& s.blend == d.blend
            &&& s.playing == d.autoplay
            &&& s.frame_pos.bits == 0
            &&& crate::single::in_range(
                d.fps,
                Single { bits: crate::config::FPS_MIN },
                Single { bits: crate::config::FPS_MAX },
            ) ==> s.fps == d.fps
        },
{
    crate::flipbook::lemma_cells_in_range(
        crate::flipbook::clamped_grid(
            match b.hint {
                Some(g) => g,
                None => Grid { cols: 8, rows: 8 },
            },
        ),
    );
}

/// A state is active only while the mode is on, and plays only while it is not paused and has more
/// than one frame.
pub proof fn law_only_the_mode_plays(b: PerPath)
    ensures
        active_state(b) is Some <==> b.enabled && b.state is Some,
        active_state(b) is Some ==> active_state(b) == b.state,
        is_playing(active_state(b)) <==> (active_state(b) matches Some(s) && s.playing
            && s.frame_count >= 2),
{
}

/// An image that was never set up has nothing on file.
pub proof fn law_fresh_images_have_no_settings(books: Map<Seq<char>, PerPath>, path: Seq<char>)
    ensures
        !books.contains_key(path) ==> !book_of(books, path).enabled && book_of(books, path).state
            is None && book_of(books, path).hint is None && !book_of(books, path).hint_dismissed,
        books.contains_key(path) ==> book_of(books, path) == books[path],
{
}

/// The surface is given the grid, the count, the position and the blending of the state that is
/// active, and nothing where none is.
pub proof fn law_surface_shows_the_state(s: Option<FlipbookState>)
    ensures
        surface_params(s) is Some <==> s is Some,
        surface_params(s) matches Some(p) ==> p.grid == s->0.grid && p.frame_count
            == s->0.frame_count && p.frame_pos == s->0.frame_pos && p.blend == s->0.blend,
{
}

/// An animation is one of more than one frame; it shows each for that frame's own delay, at least a
/// millisecond, and goes on to the frame behind it.
pub proof fn law_frames_show_for_their_delay(frames: Seq<u32>, i: int, now: u64, delay: u32)
    ensures
        shown_delay(frames, i) is Some <==> frames.len() >= 2,
        shown_delay(frames, i) is Some ==> shown_delay(frames, i) == Some(frames[i]),
        deadline(now, delay) > now,
        delay >= 1 ==> deadline(now, delay) == now + delay,
        delay == 0 ==> deadline(now, delay) == now + 1,
        0 <= i && i + 1 < frames.len() ==> next_index(frames.len() as int, i) == i + 1,
        frames.len() > 0 ==> next_index(frames.len() as int, frames.len() - 1) == 0,
{
}

/// What is awaited of a kind is what was last set for it, and no other kind is touched.
pub proof fn law_awaited_is_what_was_set(
    a: Awaited,
    kind: TimerKind,
    seq: Option<u64>,
    other: TimerKind,
)
    ensures
        awaited(awaiting(a, kind, seq), kind) == seq,
        other != kind ==> awaited(awaiting(a, kind, seq), other) == awaited(a, other),
{
}

/// Requests for frames do not add up: the largest is owed.
pub proof fn law_largest_request_is_owed(wanted: u8, n: u8)
    ensures
        owed(wanted, n) >= wanted,
        owed(wanted, n) >= n,
        owed(wanted, n) == wanted || owed(wanted, n) == n,
{
}

} // verus!
