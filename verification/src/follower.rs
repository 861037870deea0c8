use vstd::prelude::*;

use crate::window::{
    clamped_window_size, observed, BeatWindow, DEFAULT_WINDOW_SIZE, MIN_WINDOW_SIZE,
};

verus! {

/// What a follower holds: whom it follows, the beats it has observed (oldest
/// first), its window size, its smoothing factor and its current estimate
/// of the leader's tempo.
pub struct FollowerView<T, B> {
    pub leader_id: Seq<char>,
    pub beats: Seq<T>,
    pub window_size: usize,
    pub smoothing: B,
    pub estimated_bpm: Option<B>,
}

/// Tracks the tempo of another agent from the beats it is seen to play.
///
/// The follower keeps a sliding window of observed beat times (of type `T`)
/// and an estimate of the leader's tempo (of type `B`), which the caller
/// updates from the window.
#[derive(Debug, Clone)]
pub struct TempoFollower<T, B> {
    leader_id: String,
    window: BeatWindow<T>,
    smoothing: B,
    estimated_bpm: Option<B>,
}

impl<T, B: Copy> TempoFollower<T, B> {
    /// The contents of the follower.
    pub closed spec fn view(&self) -> FollowerView<T, B> {
        FollowerView {
            leader_id: self.leader_id@,
            beats: self.window.view(),
            window_size: self.window.size(),
            smoothing: self.smoothing,
            estimated_bpm: self.estimated_bpm,
        }
    }

    /// A follower of `leader_id` with the default window size, the given
    /// smoothing factor, no observed beat and no estimate.
    pub fn with_smoothing_factor(leader_id: String, smoothing: B) -> (f: Self)
        ensures
            f@.leader_id == leader_id@,
            f@.beats == Seq::<T>::empty(),
            f@.window_size == DEFAULT_WINDOW_SIZE,
            f@.smoothing == smoothing,
            f@.estimated_bpm is None,
    {
        TempoFollower { leader_id, window: BeatWindow::new(), smoothing, estimated_bpm: None }
    }

    /// The same follower with its window size set to `size`, raised to at
    /// least two.
    pub fn with_window_size(self, size: usize) -> (f: Self)
        ensures
            f@.leader_id == self@.leader_id,
            f@.beats == self@.beats,
            f@.window_size == clamped_window_size(size),
            size >= MIN_WINDOW_SIZE ==> f@.window_size == size,
            size < MIN_WINDOW_SIZE ==> f@.window_size == MIN_WINDOW_SIZE,
            f@.smoothing == self@.smoothing,
            f@.estimated_bpm == self@.estimated_bpm,
    {
        TempoFollower {
            leader_id: self.leader_id,
            window: self.window.with_window_size(size),
            smoothing: self.smoothing,
            estimated_bpm: self.estimated_bpm,
        }
    }

    /// The same follower with `smoothing` as its smoothing factor.
    pub fn smoothed_by(self, smoothing: B) -> (f: Self)
        ensures
            f@.leader_id == self@.leader_id,
            f@.beats == self@.beats,
            f@.window_size == self@.window_size,
            f@.smoothing == smoothing,
            f@.estimated_bpm == self@.estimated_bpm,
    {
        TempoFollower {
            leader_id: self.leader_id,
            window: self.window,
            smoothing,
            estimated_bpm: self.estimated_bpm,
        }
    }

    /// Records a beat of the leader at time `t` into the window: it is
    /// appended, and the oldest beat is dropped if the window is then over
    /// its size. The estimate is left as it is.
    pub fn record_beat(&mut self, t: T)
        ensures
            final(self)@.beats == observed(old(self)@.beats, old(self)@.window_size as nat, t),
            final(self)@.leader_id == old(self)@.leader_id,
            final(self)@.window_size == old(self)@.window_size,
            final(self)@.smoothing == old(self)@.smoothing,
            final(self)@.estimated_bpm == old(self)@.estimated_bpm,
    {
        self.window.observe(t);
    }

    /// The oldest and newest observed beats and the number of intervals
    /// between them, when at least two beats are held.
    pub fn beat_span(&self) -> (r: Option<(&T, &T, usize)>)
        ensures
            self@.beats.len() < 2 ==> r is None,
            self@.beats.len() >= 2 ==> (r matches Some((first, last, intervals)) && *first
                == self@.beats[0] && *last == self@.beats.last() && intervals == self@.beats.len()
                - 1),
    {
        self.window.span()
    }

    /// Replaces the estimate of the leader's tempo.
    pub fn set_estimate(&mut self, bpm: B)
        ensures
            final(self)@.estimated_bpm == Some(bpm),
            final(self)@.leader_id == old(self)@.leader_id,
            final(self)@.beats == old(self)@.beats,
            final(self)@.window_size == old(self)@.window_size,
            final(self)@.smoothing == old(self)@.smoothing,
    {
        self.estimated_bpm = Some(bpm);
    }

    /// The estimated tempo of the leader, once there is one.
    pub fn estimated_bpm(&self) -> (r: Option<B>)
        ensures
            r == self@.estimated_bpm,
    {
        self.estimated_bpm
    }

    /// The smoothing factor.
    pub fn smoothing(&self) -> (r: B)
        ensures
            r == self@.smoothing,
    {
        self.smoothing
    }

    /// The leader being followed.
    pub fn leader_id(&self) -> (r: &str)
        ensures
            r@ == self@.leader_id,
    {
        self.leader_id.as_str()
    }

    /// Number of observed beats held.
    pub fn observed_count(&self) -> (r: usize)
        ensures
            r == self@.beats.len(),
    {
        self.window.len()
    }

    /// The window size.
    pub fn window_size(&self) -> (r: usize)
        ensures
            r == self@.window_size,
    {
        self.window.window_size()
    }

    /// The observed beats held, oldest first.
    pub fn beats(&self) -> (r: &[T])
        ensures
            r@ == self@.beats,
    {
        self.window.beats()
    }

    /// Forgets every observation and the estimate.
    pub fn reset(&mut self)
        ensures
            final(self)@.beats == Seq::<T>::empty(),
            final(self)@.estimated_bpm is None,
            final(self)@.leader_id == old(self)@.leader_id,
            final(self)@.window_size == old(self)@.window_size,
            final(self)@.smoothing == old(self)@.smoothing,
    {
        self.window.clear();
        self.estimated_bpm = None;
    }
}

} // verus!
