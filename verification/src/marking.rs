use vstd::prelude::*;

use crate::curve::label_view;

verus! {

/// What a tempo marking holds: its tempo, its human-feel factor and its
/// label.
pub struct MarkingView<B> {
    pub bpm: B,
    pub feel: B,
    pub label: Option<Seq<char>>,
}

/// A tempo marking: a tempo with a "human feel" factor and an optional
/// label (e.g. "Allegro", "urgent", "idle").
#[derive(Debug, Clone, PartialEq)]
pub struct TempoMarking<B> {
    bpm: B,
    feel: B,
    label: Option<String>,
}

impl<B: Copy> TempoMarking<B> {
    /// The contents of the marking.
    pub closed spec fn view(&self) -> MarkingView<B> {
        MarkingView { bpm: self.bpm, feel: self.feel, label: label_view(self.label) }
    }

    /// A marking with the given tempo, feel and label, taken as they are.
    pub fn from_parts(bpm: B, feel: B, label: Option<String>) -> (m: Self)
        ensures
            m@.bpm == bpm,
            m@.feel == feel,
            m@.label == label_view(label),
    {
        TempoMarking { bpm, feel, label }
    }

    /// The base tempo.
    pub fn bpm(&self) -> (r: B)
        ensures
            r == self@.bpm,
    {
        self.bpm
    }

    /// The human-feel factor.
    pub fn feel(&self) -> (r: B)
        ensures
            r == self@.feel,
    {
        self.feel
    }

    /// The label, if any.
    pub fn label(&self) -> (r: Option<&str>)
        ensures
            r is Some <==> self@.label is Some,
            r matches Some(s) ==> self@.label == Some(s@),
    {
        match &self.label {
            Some(s) => Some(s.as_str()),
            None => None,
        }
    }
}

} // verus!
