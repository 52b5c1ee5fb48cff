//! Files that the desktop asks to be opened, which may come before there is a window to take them.
use vstd::prelude::*;

verus! {

/// The files that wait for the first window.
pub struct Hook {
    /// Whether there is a way to hand a file to the event loop.
    pub connected: bool,
    pub pending: Vec<String>,
    /// Whether the first window exists.
    pub live: bool,
}

impl Hook {
    /// Nothing waits.
    pub fn new() -> (h: Self)
        ensures
            !h.connected,
            !h.live,
            h.pending@ == Seq::<String>::empty(),
    {
        let h = Hook { connected: false, pending: Vec::new(), live: false };
        assert(h.pending@ =~= Seq::<String>::empty());
        h
    }

    /// The event loop can be reached.
    pub fn connect(&mut self)
        ensures
            final(self).connected,
            final(self).pending@ == old(self).pending@,
            final(self).live == old(self).live,
    {
        self.connected = true;
    }

    /// The desktop asks for a file. It is handed on at once where the window exists and the loop
    /// can be reached; else it waits.
    pub fn deliver(&mut self, path: String) -> (now: Option<String>)
        ensures
            final(self).connected == old(self).connected,
            final(self).live == old(self).live,
            old(self).live && old(self).connected ==> now == Some(path) && final(self).pending@
                == old(self).pending@,
            !(old(self).live && old(self).connected) ==> now is None && final(self).pending@ == old(
                self,
            ).pending@.push(path),
    {
        if self.live && self.connected {
            Some(path)
        } else {
            self.pending.push(path);
            None
        }
    }

    /// The first window is about to exist: take all that waits, in order.
    pub fn start(&mut self) -> (waiting: Vec<String>)
        ensures
            waiting@ == old(self).pending@,
            final(self).pending@ == Seq::<String>::empty(),
            final(self).live,
            final(self).connected == old(self).connected,
    {
        self.live = true;
        let mut waiting: Vec<String> = Vec::new();
        std::mem::swap(&mut waiting, &mut self.pending);
        assert(self.pending@ =~= Seq::<String>::empty());
        waiting
    }
}

/// What is waiting after a list of files came while nothing could take them.
pub open spec fn waited(pending: Seq<String>, paths: Seq<String>) -> Seq<String>
    decreases paths.len(),
{
    if paths.len() == 0 {
        pending
    } else {
        waited(pending.push(paths[0]), paths.skip(1))
    }
}

/// No file is lost and none changes place: what comes before the first window is handed out once,
/// in the order in which it came.
pub proof fn law_no_file_is_lost(pending: Seq<String>, paths: Seq<String>)
    ensures
        waited(pending, paths) == pending + paths,
    decreases paths.len(),
{
    if paths.len() > 0 {
        law_no_file_is_lost(pending.push(paths[0]), paths.skip(1));
        assert(pending.push(paths[0]) + paths.skip(1) =~= pending + paths);
    } else {
        assert(pending + paths =~= pending);
    }
}

/// What the first window opens of the files that wait, and what is left for after: the first file,
/// unless the launch path comes with a file of its own.
pub fn first_open(has_initial: bool, waiting: Vec<String>) -> (r: (Option<String>, Vec<String>))
    ensures
        has_initial || waiting.len() == 0 ==> r.0 is None && r.1@ == waiting@,
        !has_initial && waiting.len() > 0 ==> r.0 == Some(waiting@[0]) && r.1@ == waiting@.skip(1),
{
    if has_initial || waiting.len() == 0 {
        return (None, waiting);
    }
    let mut rest = waiting;
    let first = rest.remove(0);
    assert(rest@ =~= waiting@.skip(1));
    (Some(first), rest)
}

} // verus!
