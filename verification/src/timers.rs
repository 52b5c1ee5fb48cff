//! Timers without threads: the pending deadlines that the event loop sleeps on.
//!
//! Cancellation is by sequence number rather than by removal: arming gives a number, the window
//! remembers the number of the timer it currently wants for each kind, and a firing with another
//! number is dropped.
use vstd::prelude::*;

verus! {

/// The kinds of timer that a window can arm. One of each may be wanted per window.
#[derive(Debug, Clone, Copy, PartialEq, Eq, Structural)]
pub enum TimerKind {
    /// Animated-image playback: the displayed frame's delay has elapsed.
    Anim,
    /// Flipbook playback: the pump that keeps playback fed.
    Flipbook,
    /// The text caret's blink.
    Caret,
}

/// The number of timer kinds.
pub const KINDS: usize = 3;

/// One armed timer: the tick it falls due at, its number, and whose it is.
#[derive(Debug, Clone, Copy, PartialEq, Eq, Structural)]
pub struct Timer {
    pub at: u64,
    pub seq: u64,
    pub window: u64,
    pub kind: TimerKind,
}

/// Whether `a` fires before `b`: by deadline, then by the order of arming.
pub open spec fn fires_before(a: Timer, b: Timer) -> bool {
    a.at < b.at || (a.at == b.at && a.seq < b.seq)
}

/// `s` is in firing order.
pub open spec fn in_firing_order(s: Seq<Timer>) -> bool {
    forall|i: int, j: int| 0 <= i < j < s.len() ==> fires_before(#[trigger] s[i], #[trigger] s[j])
}

/// `s` holds the timers of `pending` that are due at `now`, each once, in firing order.
pub open spec fn is_due_list(pending: Set<Timer>, now: u64, s: Seq<Timer>) -> bool {
    &&& in_firing_order(s)
    &&& forall|t: Timer| #[trigger] s.contains(t) <==> pending.contains(t) && t.at <= now
}

/// What is left of `pending` once the timers due at `now` have fired.
pub open spec fn not_due(pending: Set<Timer>, now: u64) -> Set<Timer> {
    pending.filter(|t: Timer| t.at > now)
}

/// What the loop is told of a firing.
pub open spec fn firing(t: Timer) -> (u64, TimerKind, u64) {
    (t.window, t.kind, t.seq)
}

/// [`firing`] of each timer in turn.
pub open spec fn firings(s: Seq<Timer>) -> Seq<(u64, TimerKind, u64)> {
    s.map_values(|t: Timer| firing(t))
}

/// The process-wide timer queue.
#[derive(Debug)]
pub struct TimerQueue {
    armed: Vec<Timer>,
    next_seq: u64,
}

/// No number occurs twice, and none was given out later than `next_seq`.
spec fn numbered(armed: Seq<Timer>, next_seq: u64) -> bool {
    &&& forall|i: int, j: int|
        0 <= i < j < armed.len() ==> (#[trigger] armed[i]).seq != (#[trigger] armed[j]).seq
    &&& forall|i: int| 0 <= i < armed.len() ==> (#[trigger] armed[i]).seq <= next_seq
}

impl TimerQueue {
    #[verifier::type_invariant]
    spec fn valid(self) -> bool {
        numbered(self.armed@, self.next_seq)
    }

    /// The timers that have not fired.
    pub closed spec fn pending(self) -> Set<Timer> {
        self.armed@.to_set()
    }

    /// The last number given out.
    pub closed spec fn last_seq(self) -> u64 {
        self.next_seq
    }

    /// An empty queue.
    pub fn new() -> (q: Self)
        ensures
            q.pending() == Set::<Timer>::empty(),
            q.last_seq() == 0,
    {
        let q = TimerQueue { armed: Vec::new(), next_seq: 0 };
        assert(q.pending() =~= Set::<Timer>::empty());
        q
    }

    /// Whether there are numbers left for `n` more timers.
    pub fn can_arm(&self, n: u64) -> (r: bool)
        ensures
            r == (self.last_seq() + n <= u64::MAX),
    {
        self.next_seq <= u64::MAX - n
    }

    /// Arm a timer for `window` to fire at `at`, and give its number.
    pub fn arm(&mut self, window: u64, kind: TimerKind, at: u64) -> (seq: u64)
        requires
            old(self).last_seq() < u64::MAX,
        ensures
            seq == old(self).last_seq() + 1,
            final(self).last_seq() == seq,
            final(self).pending() == old(self).pending().insert(Timer { at, seq, window, kind }),
            forall|t: Timer| #[trigger] old(self).pending().contains(t) ==> t.seq < seq,
    {
        proof {
            use_type_invariant(&*self);
        }
        let seq = self.next_seq + 1;
        let ghost was = self.armed@;
        let t = Timer { at, seq, window, kind };
        let mut armed: Vec<Timer> = Vec::new();
        std::mem::swap(&mut armed, &mut self.armed);
        armed.push(t);
        self.next_seq = seq;
        self.armed = armed;
        proof {
            assert forall|x: Timer| #[trigger] was.push(t).contains(x) <==> was.contains(x) || x == t by {
                if was.contains(x) {
                    let i = choose|i: int| 0 <= i < was.len() && was[i] == x;
                    assert(was.push(t)[i] == x);
                }
                assert(was.push(t)[was.len() as int] == t);
            }
            assert(self.pending() =~= was.to_set().insert(t));
        }
        seq
    }

    /// The earliest pending deadline.
    pub fn next_deadline(&self) -> (r: Option<u64>)
        ensures
            r is None <==> self.pending() == Set::<Timer>::empty(),
            r matches Some(at) ==> (exists|t: Timer| #[trigger]
                self.pending().contains(t) && t.at == at) && forall|t: Timer| #[trigger]
                self.pending().contains(t) ==> at <= t.at,
    {
        match first_of(&self.armed) {
            Some(i) => {
                proof {
                    assert(self.pending().contains(self.armed@[i as int]));
                    assert(self.pending() != Set::<Timer>::empty());
                }
                Some(self.armed[i].at)
            },
            None => {
                assert(self.pending() =~= Set::<Timer>::empty());
                None
            },
        }
    }

    /// Take out everything due at `now`, in firing order.
    pub fn pop_due(&mut self, now: u64) -> (due: Vec<(u64, TimerKind, u64)>)
        ensures
            exists|s: Seq<Timer>| #[trigger]
                is_due_list(old(self).pending(), now, s) && due@ == firings(s),
            final(self).pending() == not_due(old(self).pending(), now),
            final(self).last_seq() == old(self).last_seq(),
    {
        proof {
            use_type_invariant(&*self);
        }
        let mut armed: Vec<Timer> = Vec::new();
        std::mem::swap(&mut armed, &mut self.armed);
        let ghost all = armed@;
        let ghost mut fired: Seq<Timer> = Seq::empty();
        let mut due: Vec<(u64, TimerKind, u64)> = Vec::new();
        loop
            invariant
                numbered(all, self.next_seq),
                numbered(armed@, self.next_seq),
                forall|t: Timer| #[trigger] all.contains(t) <==> armed@.contains(t) || fired.contains(t),
                forall|t: Timer| #[trigger] fired.contains(t) ==> t.at <= now && !armed@.contains(t),
                in_firing_order(fired),
                forall|i: int, t: Timer|
                    0 <= i < fired.len() && #[trigger] armed@.contains(t) ==> fires_before(
                        #[trigger] fired[i],
                        t,
                    ),
                due@ == firings(fired),
            ensures
                forall|t: Timer| #[trigger] armed@.contains(t) ==> t.at > now,
            decreases armed.len(),
        {
            match first_of(&armed) {
                Some(i) => {
                    let t = armed[i];
                    if t.at > now {
                        break;
                    }
                    let ghost before = armed@;
                    let gone = armed.swap_remove(i);
                    proof {
                        lemma_swap_remove(before, armed@, i as int, self.next_seq);
                        assert(before.contains(t));
                        assert(all.contains(t));
                        assert forall|x: Timer| #[trigger] fired.push(t).contains(x) <==> fired.contains(x)
                            || x == t by {
                            if fired.contains(x) {
                                let k = choose|k: int| 0 <= k < fired.len() && fired[k] == x;
                                assert(fired.push(t)[k] == x);
                            }
                            assert(fired.push(t)[fired.len() as int] == t);
                        }
                        assert forall|k: int, x: Timer|
                            0 <= k < fired.push(t).len() && #[trigger] armed@.contains(x) implies fires_before(
                            #[trigger] fired.push(t)[k],
                            x,
                        ) by {
                            assert(before.contains(x));
                        }
                        fired = fired.push(t);
                    }
                    due.push((t.window, t.kind, t.seq));
                    assert(due@ =~= firings(fired));
                },
                None => {
                    break;
                },
            }
        }
        self.armed = armed;
        proof {
            assert(is_due_list(old(self).pending(), now, fired));
            assert(due@ == firings(fired));
            assert(self.pending() =~= not_due(all.to_set(), now));
        }
        due
    }
}

/// What is left of a sequence once its `i`-th element is swapped out.
proof fn lemma_swap_remove(before: Seq<Timer>, after: Seq<Timer>, i: int, next_seq: u64)
    requires
        0 <= i < before.len(),
        numbered(before, next_seq),
        after == before.update(i, before.last()).drop_last(),
    ensures
        numbered(after, next_seq),
        forall|t: Timer| #[trigger] before.contains(t) <==> after.contains(t) || t == before[i],
        !after.contains(before[i]),
{
    let n = before.len() - 1;
    assert forall|k: int| 0 <= k < n implies #[trigger] after[k] == (if k == i {
        before[n]
    } else {
        before[k]
    }) by {}
    assert forall|t: Timer| #[trigger] before.contains(t) <==> after.contains(t) || t == before[i] by {
        if before.contains(t) {
            let k = choose|k: int| 0 <= k < before.len() && before[k] == t;
            if k == n && i < n {
                assert(after[i] == t);
            } else if k != i {
                assert(after[k] == t);
            }
        }
        if after.contains(t) {
            let k = choose|k: int| 0 <= k < after.len() && after[k] == t;
            assert(before.contains(after[k]));
        }
    }
}

/// The place of the timer that fires first.
fn first_of(armed: &Vec<Timer>) -> (r: Option<usize>)
    ensures
        r is None <==> armed.len() == 0,
        r matches Some(i) ==> i < armed.len() && forall|t: Timer| #[trigger]
            armed@.contains(t) ==> t == armed@[i as int] || t.at > armed@[i as int].at || (t.at
                == armed@[i as int].at && t.seq >= armed@[i as int].seq),
{
    if armed.len() == 0 {
        return None;
    }
    let mut best: usize = 0;
    let mut i: usize = 1;
    while i < armed.len()
        invariant
            best < i <= armed.len(),
            forall|k: int|
                0 <= k < i ==> !fires_before(#[trigger] armed@[k], armed@[best as int]),
        decreases armed.len() - i,
    {
        let (a, b) = (armed[i], armed[best]);
        if a.at < b.at || (a.at == b.at && a.seq < b.seq) {
            best = i;
        }
        i += 1;
    }
    Some(best)
}

/// A queue's due timers have one firing order.
pub proof fn law_due_list_is_unique(pending: Set<Timer>, now: u64, a: Seq<Timer>, b: Seq<Timer>)
    requires
        is_due_list(pending, now, a),
        is_due_list(pending, now, b),
    ensures
        a == b,
    decreases a.len(),
{
    if a.len() == 0 {
        if b.len() > 0 {
            assert(b.contains(b[0]));
            assert(a.contains(b[0]));
        }
        assert(a =~= b);
    } else {
        assert(a.contains(a[0]));
        assert(b.contains(a[0]));
        let k = choose|k: int| 0 <= k < b.len() && b[k] == a[0];
        assert(b.contains(b[0]));
        assert(a.contains(b[0]));
        let m = choose|m: int| 0 <= m < a.len() && a[m] == b[0];
        assert(k == 0) by {
            if k > 0 {
                assert(fires_before(b[0], b[k]));
                if m > 0 {
                    assert(fires_before(a[0], a[m]));
                }
            }
        }
        let (x, y) = (a.skip(1), b.skip(1));
        let rest = pending.remove(a[0]);
        lemma_tail_is_due(pending, now, a);
        lemma_tail_is_due(pending, now, b);
        law_due_list_is_unique(rest, now, x, y);
        assert(a =~= seq![a[0]] + x);
        assert(b =~= seq![b[0]] + y);
    }
}

proof fn lemma_tail_is_due(pending: Set<Timer>, now: u64, s: Seq<Timer>)
    requires
        is_due_list(pending, now, s),
        s.len() > 0,
    ensures
        is_due_list(pending.remove(s[0]), now, s.skip(1)),
{
    let t = s.skip(1);
    let rest = pending.remove(s[0]);
    assert forall|i: int, j: int| 0 <= i < j < t.len() implies fires_before(
        #[trigger] t[i],
        #[trigger] t[j],
    ) by {
        assert(fires_before(s[i + 1], s[j + 1]));
    }
    assert forall|x: Timer| #[trigger] t.contains(x) <==> rest.contains(x) && x.at <= now by {
        if t.contains(x) {
            let k = choose|k: int| 0 <= k < t.len() && t[k] == x;
            assert(s[k + 1] == x);
            assert(fires_before(s[0], s[k + 1]));
            assert(s.contains(x));
        }
        if rest.contains(x) && x.at <= now {
            assert(s.contains(x));
            let k = choose|k: int| 0 <= k < s.len() && s[k] == x;
            assert(t[k - 1] == x);
        }
    }
}

/// Firing in two steps is firing at once: what is due by the later tick is what was due by the
/// earlier one, then what has fallen due since.
pub proof fn law_firing_in_steps(
    pending: Set<Timer>,
    sooner: u64,
    later: u64,
    a: Seq<Timer>,
    b: Seq<Timer>,
)
    requires
        sooner <= later,
        is_due_list(pending, sooner, a),
        is_due_list(not_due(pending, sooner), later, b),
    ensures
        is_due_list(pending, later, a + b),
        not_due(not_due(pending, sooner), later) == not_due(pending, later),
{
    let s = a + b;
    assert forall|i: int, j: int| 0 <= i < j < s.len() implies fires_before(
        #[trigger] s[i],
        #[trigger] s[j],
    ) by {
        if i < a.len() && j >= a.len() {
            assert(a.contains(a[i]));
            assert(b.contains(b[j - a.len()]));
        } else if j < a.len() {
            assert(fires_before(a[i], a[j]));
        } else {
            assert(fires_before(b[i - a.len()], b[j - a.len()]));
        }
    }
    assert forall|t: Timer| #[trigger] s.contains(t) <==> pending.contains(t) && t.at <= later by {
        if s.contains(t) {
            let k = choose|k: int| 0 <= k < s.len() && s[k] == t;
            if k < a.len() {
                assert(a.contains(a[k]));
            } else {
                assert(b.contains(b[k - a.len()]));
            }
        }
        if pending.contains(t) && t.at <= later {
            if t.at <= sooner {
                assert(a.contains(t));
                let k = choose|k: int| 0 <= k < a.len() && a[k] == t;
                assert(s[k] == t);
            } else {
                assert(not_due(pending, sooner).contains(t));
                assert(b.contains(t));
                let k = choose|k: int| 0 <= k < b.len() && b[k] == t;
                assert(s[a.len() + k] == t);
            }
        }
    }
    assert(not_due(not_due(pending, sooner), later) =~= not_due(pending, later));
}

/// Of two timers the earlier fires first, and of two for one moment the one armed first; of two
/// with different numbers exactly one comes first.
pub proof fn law_earlier_fires_first(a: Timer, b: Timer)
    ensures
        a.at < b.at ==> fires_before(a, b),
        a.at == b.at ==> (fires_before(a, b) <==> a.seq < b.seq),
        a.seq != b.seq ==> fires_before(a, b) != fires_before(b, a),
        !fires_before(a, a),
{
}

/// A timer either fires by now or waits on, and a firing names its window, its kind and its
/// number.
pub proof fn law_timers_fire_or_wait(pending: Set<Timer>, now: u64, s: Seq<Timer>, t: Timer)
    requires
        is_due_list(pending, now, s),
    ensures
        pending.contains(t) <==> s.contains(t) || not_due(pending, now).contains(t),
        !(s.contains(t) && not_due(pending, now).contains(t)),
        s.contains(t) ==> t.at <= now,
        not_due(pending, now).contains(t) ==> t.at > now,
        firings(s).len() == s.len(),
        firing(t).0 == t.window,
        firing(t).1 == t.kind,
        firing(t).2 == t.seq,
{
}

} // verus!
