//! The decode pool's rules: generations, which jobs are still worth decoding, which results are
//! scanned for a sprite sheet, and how many workers there are.
use vstd::prelude::*;

verus! {

/// The most workers that decode at once.
pub const MAX_WORKERS: usize = 4;

/// The counter of decode generations. Every open, page turn, reload and close takes a fresh one.
#[derive(Debug)]
pub struct Generations {
    last: u64,
}

impl Generations {
    /// The generation given out last.
    pub closed spec fn latest(self) -> u64 {
        self.last
    }

    /// None given out yet.
    pub fn new() -> (g: Self)
        ensures
            g.latest() == 0,
    {
        Generations { last: 0 }
    }

    /// The next generation.
    pub fn fresh_generation(&mut self) -> (g: u64)
        requires
            old(self).latest() < u64::MAX,
        ensures
            g == old(self).latest() + 1,
            final(self).latest() == g,
    {
        self.last += 1;
        self.last
    }
}

/// What the workers know of the jobs submitted: the newest generation of each window. The launch
/// path's decode, which comes before any window, stands under `None`.
#[derive(Debug)]
pub struct Backlog {
    newest: Vec<(Option<u64>, u64)>,
}

/// The newest generation on file for a window.
spec fn on_file(newest: Seq<(Option<u64>, u64)>, window: Option<u64>) -> Option<u64> {
    if exists|i: int| 0 <= i < newest.len() && (#[trigger] newest[i]).0 == window {
        Some(newest[choose|i: int| 0 <= i < newest.len() && (#[trigger] newest[i]).0 == window].1)
    } else {
        None
    }
}

/// No window is on file twice.
spec fn one_per_window(newest: Seq<(Option<u64>, u64)>) -> bool {
    forall|i: int, j: int|
        0 <= i < j < newest.len() ==> (#[trigger] newest[i]).0 != (#[trigger] newest[j]).0
}

/// The newest generation of a window after a submission for it. It never goes back.
pub open spec fn newest(latest: Option<u64>, generation: u64) -> u64 {
    match latest {
        Some(g) => if generation > g {
            generation
        } else {
            g
        },
        None => generation,
    }
}

/// Whether a job was overtaken, where `latest` is the newest generation of its window.
pub open spec fn overtaken(latest: Option<u64>, generation: u64) -> bool {
    latest matches Some(g) && generation < g
}

/// The newest generation that a list of submissions holds for a window.
pub open spec fn latest_of(jobs: Seq<(Option<u64>, u64)>, window: Option<u64>) -> Option<u64>
    decreases jobs.len(),
{
    if jobs.len() == 0 {
        None
    } else if jobs.last().0 == window {
        Some(newest(latest_of(jobs.drop_last(), window), jobs.last().1))
    } else {
        latest_of(jobs.drop_last(), window)
    }
}

impl Backlog {
    #[verifier::type_invariant]
    spec fn valid(self) -> bool {
        one_per_window(self.newest@)
    }

    /// The newest generation that was submitted for a window.
    pub closed spec fn latest(self, window: Option<u64>) -> Option<u64> {
        on_file(self.newest@, window)
    }

    /// Nothing submitted.
    pub fn new() -> (b: Self)
        ensures
            forall|w: Option<u64>| #[trigger] b.latest(w) is None,
    {
        Backlog { newest: Vec::new() }
    }

    fn find(&self, window: Option<u64>) -> (r: Option<usize>)
        ensures
            r matches Some(i) ==> i < self.newest.len() && self.newest@[i as int].0 == window,
            r is None ==> forall|i: int|
                0 <= i < self.newest.len() ==> (#[trigger] self.newest@[i]).0 != window,
    {
        let mut i: usize = 0;
        while i < self.newest.len()
            invariant
                i <= self.newest.len(),
                forall|k: int| 0 <= k < i ==> (#[trigger] self.newest@[k]).0 != window,
            decreases self.newest.len() - i,
        {
            if self.newest[i].0 == window {
                return Some(i);
            }
            i += 1;
        }
        None
    }

    /// A job was submitted for a window.
    pub fn submit(&mut self, window: Option<u64>, generation: u64)
        ensures
            forall|w: Option<u64>| #[trigger]
                final(self).latest(w) == if w == window {
                    Some(newest(old(self).latest(w), generation))
                } else {
                    old(self).latest(w)
                },
    {
        proof {
            use_type_invariant(&*self);
        }
        let at = self.find(window);
        let mut entries: Vec<(Option<u64>, u64)> = Vec::new();
        std::mem::swap(&mut entries, &mut self.newest);
        let ghost was = entries@;
        match at {
            Some(i) => {
                let known: u64 = entries[i].1;
                if generation > known {
                    entries.set(i, (window, generation));
                }
            },
            None => {
                entries.push((window, generation));
            },
        }
        proof {
            assert forall|w: Option<u64>| #[trigger]
                on_file(entries@, w) == if w == window {
                    Some(newest(on_file(was, w), generation))
                } else {
                    on_file(was, w)
                } by {
                lemma_on_file(was, w);
                lemma_on_file(entries@, w);
                if at is None {
                    assert(entries@[was.len() as int].0 == window);
                    if exists|k: int| 0 <= k < was.len() && (#[trigger] was[k]).0 == w {
                        let k = choose|k: int| 0 <= k < was.len() && (#[trigger] was[k]).0 == w;
                        assert(entries@[k] == was[k]);
                    }
                } else {
                    let i = at->0 as int;
                    assert(was[i].0 == window && entries@[i].0 == window);
                    if exists|k: int| 0 <= k < was.len() && (#[trigger] was[k]).0 == w {
                        let k = choose|k: int| 0 <= k < was.len() && (#[trigger] was[k]).0 == w;
                        assert(entries@[k].0 == was[k].0);
                    }
                }
            }
        }
        self.newest = entries;
    }

    /// Whether a job was overtaken by a newer one of the same window, so that its result would be
    /// dropped anyway.
    pub fn is_superseded(&self, window: Option<u64>, generation: u64) -> (r: bool)
        ensures
            r == overtaken(self.latest(window), generation),
    {
        proof {
            use_type_invariant(self);
            lemma_on_file(self.newest@, window);
        }
        match self.find(window) {
            Some(i) => {
                assert(self.newest@[i as int].0 == window);
                generation < self.newest[i].1
            },
            None => false,
        }
    }
}

proof fn lemma_on_file(newest: Seq<(Option<u64>, u64)>, window: Option<u64>)
    requires
        one_per_window(newest),
    ensures
        forall|i: int|
            0 <= i < newest.len() && (#[trigger] newest[i]).0 == window ==> on_file(newest, window)
                == Some(newest[i].1),
{
}

/// A job is overtaken exactly where a newer one was submitted for its own window: what other
/// windows submit never costs a window its image.
pub proof fn law_only_the_own_window_overtakes(
    jobs: Seq<(Option<u64>, u64)>,
    window: Option<u64>,
    generation: u64,
)
    ensures
        overtaken(latest_of(jobs, window), generation) <==> exists|i: int|
            0 <= i < jobs.len() && (#[trigger] jobs[i]).0 == window && jobs[i].1 > generation,
    decreases jobs.len(),
{
    if jobs.len() > 0 {
        let before = jobs.drop_last();
        law_only_the_own_window_overtakes(before, window, generation);
        if overtaken(latest_of(before, window), generation) {
            let i = choose|i: int|
                0 <= i < before.len() && (#[trigger] before[i]).0 == window && before[i].1
                    > generation;
            assert(jobs[i] == before[i]);
        }
        if exists|i: int|
            0 <= i < jobs.len() && (#[trigger] jobs[i]).0 == window && jobs[i].1 > generation {
            let i = choose|i: int|
                0 <= i < jobs.len() && (#[trigger] jobs[i]).0 == window && jobs[i].1 > generation;
            if i < before.len() {
                assert(before[i] == jobs[i]);
            }
        }
        assert(jobs[jobs.len() - 1] == jobs.last());
    }
}

/// The newest job of a window is always decoded, and one that was overtaken stays overtaken.
pub proof fn law_newest_job_is_decoded(latest: Option<u64>, generation: u64, later: u64)
    ensures
        !overtaken(latest, generation) ==> !overtaken(
            Some(newest(latest, generation)),
            generation,
        ),
        overtaken(latest, generation) ==> overtaken(Some(newest(latest, later)), generation),
{
}

/// Whether a decoded image is scanned for a sprite sheet: where detection is on and the image is
/// not itself an animation.
pub fn wants_detection(decoded: bool, detect_flipbook: bool, animated: bool) -> (r: bool)
    ensures
        r == (decoded && detect_flipbook && !animated),
{
    decoded && detect_flipbook && !animated
}

/// How many workers to start on a machine that runs `parallelism` threads at once, where that is
/// known.
pub fn worker_count(parallelism: Option<usize>) -> (n: usize)
    ensures
        n == match parallelism {
            Some(p) => if p < 1 {
                1
            } else if p > MAX_WORKERS {
                MAX_WORKERS
            } else {
                p
            },
            None => 1,
        },
        1 <= n <= MAX_WORKERS,
        n == workers(parallelism),
{
    match parallelism {
        Some(p) => if p < 1 {
            1
        } else if p > MAX_WORKERS {
            MAX_WORKERS
        } else {
            p
        },
        None => 1,
    }
}

/// The newest generation is the greatest: it is one of the two, and neither is greater.
pub proof fn law_newest_is_the_greatest(latest: Option<u64>, generation: u64)
    ensures
        newest(latest, generation) >= generation,
        latest matches Some(g) ==> newest(latest, generation) >= g,
        newest(latest, generation) == generation || latest == Some(newest(latest, generation)),
        overtaken(latest, generation) <==> newest(latest, generation) > generation,
        !overtaken(None, generation),
        !overtaken(Some(generation), generation),
{
}

/// How many workers decode.
pub open spec fn workers(parallelism: Option<usize>) -> usize {
    match parallelism {
        Some(p) => if p >= 4 {
            4
        } else if p >= 1 {
            p
        } else {
            1
        },
        None => 1,
    }
}

/// One worker at least and four at most; in between as many as run at once, and never fewer on a
/// larger machine.
pub proof fn law_workers(p: usize, q: usize)
    requires
        p <= q,
    ensures
        1 <= workers(Some(p)) <= 4,
        1 <= p <= 4 ==> workers(Some(p)) == p,
        workers(Some(p)) <= workers(Some(q)),
        workers(None) == workers(Some(1)),
        p >= 4 ==> workers(Some(p)) == 4,
{
}

} // verus!
