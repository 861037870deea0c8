use vstd::prelude::*;

use crate::curve::TempoCurve;
use crate::marking::TempoMarking;
use crate::registry::FollowerTable;

verus! {

/// What a leader holds: its identifier, its current tempo, its followers
/// with their offsets, whether rubato is enabled, the curve it is playing
/// (if any) and the position reached along that curve.
pub struct LeaderView<B> {
    pub leader_id: Seq<char>,
    pub current: TempoMarking<B>,
    pub followers: Map<Seq<char>, B>,
    pub rubato_enabled: bool,
    pub active_curve: Option<TempoCurve<B>>,
    pub curve_position: B,
}

/// Sets the tempo for a group of agents.
///
/// The leader keeps its current tempo marking, a table of followers with
/// their tempo offsets, a rubato switch, and the tempo
/// curve it is playing together with the position reached along it.
#[derive(Debug)]
pub struct TempoLeader<B> {
    leader_id: String,
    current: TempoMarking<B>,
    followers: FollowerTable<B>,
    rubato_enabled: bool,
    active_curve: Option<TempoCurve<B>>,
    curve_position: B,
}

impl<B: Copy> TempoLeader<B> {
    /// The contents of the leader.
    pub closed spec fn view(&self) -> LeaderView<B> {
        LeaderView {
            leader_id: self.leader_id@,
            current: self.current,
            followers: self.followers.view(),
            rubato_enabled: self.rubato_enabled,
            active_curve: self.active_curve,
            curve_position: self.curve_position,
        }
    }

    /// A leader with the given tempo, no follower, rubato disabled and no
    /// curve; `curve_origin` is the position a curve starts from.
    pub fn with_curve_origin(leader_id: String, initial_tempo: TempoMarking<B>, curve_origin: B) -> (l: Self)
        ensures
            l@.leader_id == leader_id@,
            l@.current == initial_tempo,
            l@.followers == Map::<Seq<char>, B>::empty(),
            !l@.rubato_enabled,
            l@.active_curve is None,
            l@.curve_position == curve_origin,
    {
        TempoLeader {
            leader_id,
            current: initial_tempo,
            followers: FollowerTable::new(),
            rubato_enabled: false,
            active_curve: None,
            curve_position: curve_origin,
        }
    }

    /// Enables or disables rubato for the group.
    pub fn set_rubato(&mut self, enabled: bool)
        ensures
            final(self)@ == (LeaderView { rubato_enabled: enabled, ..old(self)@ }),
    {
        self.rubato_enabled = enabled;
    }

    /// Registers a follower with a tempo offset, replacing the offset of a
    /// follower already registered under that identifier.
    pub fn add_follower(&mut self, follower_id: String, offset_bpm: B)
        ensures
            final(self)@ == (LeaderView {
                followers: old(self)@.followers.insert(follower_id@, offset_bpm),
                ..old(self)@
            }),
    {
        self.followers.add(follower_id, offset_bpm);
    }

    /// Removes a follower; returns whether it was registered.
    pub fn remove_follower(&mut self, follower_id: &str) -> (removed: bool)
        ensures
            removed == old(self)@.followers.dom().contains(follower_id@),
            final(self)@ == (LeaderView {
                followers: old(self)@.followers.remove(follower_id@),
                ..old(self)@
            }),
    {
        self.followers.remove(follower_id)
    }

    /// The tempo offset registered for a follower, if it is registered.
    pub fn follower_offset(&self, follower_id: &str) -> (r: Option<B>)
        ensures
            r is Some <==> self@.followers.dom().contains(follower_id@),
            r matches Some(v) ==> v == self@.followers[follower_id@],
    {
        match self.followers.get(follower_id) {
            Some(v) => Some(*v),
            None => None,
        }
    }

    /// Changes the tempo.
    pub fn set_tempo(&mut self, tempo: TempoMarking<B>)
        ensures
            final(self)@ == (LeaderView { current: tempo, ..old(self)@ }),
    {
        self.current = tempo;
    }

    /// Starts a tempo curve at position `curve_origin`, replacing any curve
    /// in progress.
    pub fn begin_curve(&mut self, curve: TempoCurve<B>, curve_origin: B)
        ensures
            final(self)@ == (LeaderView {
                active_curve: Some(curve),
                curve_position: curve_origin,
                ..old(self)@
            }),
    {
        self.active_curve = Some(curve);
        self.curve_position = curve_origin;
    }

    /// Moves the position reached along the curve.
    pub fn set_curve_position(&mut self, position: B)
        ensures
            final(self)@ == (LeaderView { curve_position: position, ..old(self)@ }),
    {
        self.curve_position = position;
    }

    /// Ends the curve in progress, adopting `tempo` as the current tempo.
    /// The position reached is kept.
    pub fn finish_curve(&mut self, tempo: TempoMarking<B>)
        ensures
            final(self)@ == (LeaderView { current: tempo, active_curve: None, ..old(self)@ }),
    {
        self.current = tempo;
        self.active_curve = None;
    }

    /// The curve in progress, if any.
    pub fn active_curve(&self) -> (r: Option<&TempoCurve<B>>)
        ensures
            r is Some <==> self@.active_curve is Some,
            r matches Some(c) ==> self@.active_curve == Some(*c),
    {
        match &self.active_curve {
            Some(c) => Some(c),
            None => None,
        }
    }

    /// The position reached along the curve.
    pub fn curve_position(&self) -> (r: B)
        ensures
            r == self@.curve_position,
    {
        self.curve_position
    }

    /// Leader identifier.
    pub fn leader_id(&self) -> (r: &str)
        ensures
            r@ == self@.leader_id,
    {
        self.leader_id.as_str()
    }

    /// Number of followers.
    pub fn follower_count(&self) -> (r: usize)
        ensures
            self@.followers.dom().finite(),
            r == self@.followers.dom().len(),
    {
        self.followers.len()
    }

    /// Current tempo.
    pub fn current_tempo(&self) -> (r: &TempoMarking<B>)
        ensures
            *r == self@.current,
    {
        &self.current
    }

    /// Whether rubato is enabled.
    pub fn rubato_enabled(&self) -> (r: bool)
        ensures
            r == self@.rubato_enabled,
    {
        self.rubato_enabled
    }

    /// Whether a curve is in progress.
    pub fn curve_active(&self) -> (r: bool)
        ensures
            r == self@.active_curve is Some,
    {
        self.active_curve.is_some()
    }
}

impl<B: Copy> Clone for TempoLeader<B> {
    /// A copy of the leader: the same identifier, followers, rubato switch,
    /// curve and position, and a clone of its tempo marking.
    fn clone(&self) -> (l: Self)
        ensures
            l@.leader_id == self@.leader_id,
            l@.followers.dom() == self@.followers.dom(),
            forall|k: Seq<char>| #[trigger]
                self@.followers.dom().contains(k) ==> cloned::<B>(self@.followers[k], l@.followers[k]),
            l@.rubato_enabled == self@.rubato_enabled,
            l@.active_curve is Some <==> self@.active_curve is Some,
            l@.active_curve matches Some(c) ==> c@ == self@.active_curve->0@,
            l@.curve_position == self@.curve_position,
    {
        let active_curve = match &self.active_curve {
            Some(c) => Some(c.clone()),
            None => None,
        };
        TempoLeader {
            leader_id: self.leader_id.clone(),
            current: self.current.clone(),
            followers: self.followers.clone(),
            rubato_enabled: self.rubato_enabled,
            active_curve,
            curve_position: self.curve_position,
        }
    }
}

} // verus!
