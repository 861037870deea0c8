use vstd::prelude::*;

verus! {

/// Number of observations a window keeps when no size is given.
pub const DEFAULT_WINDOW_SIZE: usize = 16;

/// Smallest window size accepted: two beats are needed to measure one interval.
pub const MIN_WINDOW_SIZE: usize = 2;

/// The window size a requested size is clamped to (at least two beats).
pub open spec fn clamped_window_size(size: usize) -> usize {
    if size < MIN_WINDOW_SIZE {
        MIN_WINDOW_SIZE
    } else {
        size
    }
}

/// A window gets exactly the size asked for, except that a request below two
/// gives two: the size is never below the request, never below two, and
/// equals the request whenever that is at least two.
pub proof fn lemma_window_size_is_request(size: usize)
    ensures
        clamped_window_size(size) >= MIN_WINDOW_SIZE,
        clamped_window_size(size) >= size,
        size >= MIN_WINDOW_SIZE ==> clamped_window_size(size) == size,
        size < MIN_WINDOW_SIZE ==> clamped_window_size(size) == MIN_WINDOW_SIZE,
{
}

/// A window of size `size`, starting empty, keeps every one of the first
/// `size` beats it observes: nothing is dropped until it holds more than its
/// size.
pub proof fn lemma_window_drops_nothing_within_size<T>(size: nat, ts: Seq<T>)
    requires
        size >= 1,
        ts.len() <= size,
    ensures
        observed_all(Seq::<T>::empty(), size, ts) == ts,
{
    lemma_window_keeps_latest(size, ts);
}

/// The observations held after one more beat `t` is recorded into `beats`
/// with window size `size`: the beat is appended, and when that makes the
/// window overfull the oldest observation is dropped.
pub open spec fn observed<T>(beats: Seq<T>, size: nat, t: T) -> Seq<T> {
    let pushed = beats.push(t);
    if pushed.len() > size {
        pushed.drop_first()
    } else {
        pushed
    }
}

/// The observations held after recording every beat of `ts`, in order,
/// starting from `beats`.
pub open spec fn observed_all<T>(beats: Seq<T>, size: nat, ts: Seq<T>) -> Seq<T>
    decreases ts.len(),
{
    if ts.len() == 0 {
        beats
    } else {
        observed(observed_all(beats, size, ts.drop_last()), size, ts.last())
    }
}

/// The most recent `size` elements of `ts` (all of them when there are fewer).
pub open spec fn latest<T>(ts: Seq<T>, size: nat) -> Seq<T> {
    if ts.len() > size {
        ts.subrange(ts.len() - size, ts.len() as int)
    } else {
        ts
    }
}

/// A sliding window over the most recent beat observations of a leader.
///
/// Observations are kept oldest first. Recording a beat appends it and, when
/// the window is then over its size, drops the oldest one.
#[derive(Debug, Clone)]
pub struct BeatWindow<T> {
    beats: Vec<T>,
    window_size: usize,
}

impl<T> BeatWindow<T> {
    /// The observations held, oldest first.
    pub closed spec fn view(&self) -> Seq<T> {
        self.beats@
    }

    /// The window size.
    pub closed spec fn size(&self) -> usize {
        self.window_size
    }

    /// A window of the default size, with no observation.
    pub fn new() -> (w: Self)
        ensures
            w.view() == Seq::<T>::empty(),
            w.size() == DEFAULT_WINDOW_SIZE,
    {
        BeatWindow { beats: Vec::new(), window_size: DEFAULT_WINDOW_SIZE }
    }

    /// The same window with its size set to `size`, raised to at least two.
    /// Observations already held are kept as they are.
    pub fn with_window_size(self, size: usize) -> (w: Self)
        ensures
            w.view() == self.view(),
            w.size() == clamped_window_size(size),
            size >= MIN_WINDOW_SIZE ==> w.size() == size,
            size < MIN_WINDOW_SIZE ==> w.size() == MIN_WINDOW_SIZE,
    {
        let window_size: usize = if size < MIN_WINDOW_SIZE {
            MIN_WINDOW_SIZE
        } else {
            size
        };
        BeatWindow { beats: self.beats, window_size }
    }

    /// The window size.
    pub fn window_size(&self) -> (r: usize)
        ensures
            r == self.size(),
    {
        self.window_size
    }

    /// Records one beat: appends it and drops the oldest observation if the
    /// window is then over its size.
    pub fn observe(&mut self, t: T)
        ensures
            final(self).view() == observed(old(self).view(), old(self).size() as nat, t),
            final(self).size() == old(self).size(),
    {
        self.beats.push(t);
        if self.beats.len() > self.window_size {
            self.beats.remove(0);
        }
    }

    /// Number of observations held.
    pub fn len(&self) -> (r: usize)
        ensures
            r == self.view().len(),
    {
        self.beats.len()
    }

    /// Whether no observation is held.
    pub fn is_empty(&self) -> (r: bool)
        ensures
            r == (self.view().len() == 0),
    {
        self.beats.len() == 0
    }

    /// Drops every observation; the window size is kept.
    pub fn clear(&mut self)
        ensures
            final(self).view() == Seq::<T>::empty(),
            final(self).size() == old(self).size(),
    {
        self.beats.clear();
    }

    /// The observations held, oldest first.
    pub fn beats(&self) -> (r: &[T])
        ensures
            r@ == self.view(),
    {
        self.beats.as_slice()
    }

    /// The oldest and the newest observation and the number of intervals
    /// between them, when at least two observations are held.
    pub fn span(&self) -> (r: Option<(&T, &T, usize)>)
        ensures
            self.view().len() < 2 ==> r is None,
            self.view().len() >= 2 ==> (r matches Some((first, last, intervals)) && *first
                == self.view()[0] && *last == self.view().last() && intervals == self.view().len()
                - 1),
    {
        let n: usize = self.beats.len();
        if n < 2 {
            None
        } else {
            Some((&self.beats[0], &self.beats[n - 1], n - 1))
        }
    }
}

/// Recording a beat into a window that is within its size leaves it within
/// its size.
pub proof fn lemma_observe_stays_within_size<T>(beats: Seq<T>, size: nat, t: T)
    requires
        size >= 1,
        beats.len() <= size,
    ensures
        observed(beats, size, t).len() <= size,
{
}

/// A window that starts empty holds, after any run of observations, exactly
/// the most recent `size` of them, oldest first.
pub proof fn lemma_window_keeps_latest<T>(size: nat, ts: Seq<T>)
    requires
        size >= 1,
    ensures
        observed_all(Seq::<T>::empty(), size, ts) == latest(ts, size),
    decreases ts.len(),
{
    if ts.len() > 0 {
        let init = ts.drop_last();
        lemma_window_keeps_latest(size, init);
        let prev = latest(init, size);
        let pushed = prev.push(ts.last());
        if init.len() >= size {
            assert(pushed.drop_first() =~= latest(ts, size));
        } else {
            assert(pushed =~= latest(ts, size));
        }
    }
}

} // verus!
