use vstd::prelude::*;

use crate::shape::{classified_shape, CurveShape};

verus! {

/// The smallest duration a curve can have, in beats.
pub const MIN_CURVE_BEATS: u32 = 1;

/// The duration a requested duration is raised to: at least one beat.
pub open spec fn clamped_duration(beats: u32) -> u32 {
    if beats < MIN_CURVE_BEATS {
        MIN_CURVE_BEATS
    } else {
        beats
    }
}

/// A curve lasts exactly the number of beats asked for, except that a
/// request for no beat at all gives one beat: the duration is never below
/// the request, never below one, and equals the request whenever that is at
/// least one.
pub proof fn lemma_duration_is_request(beats: u32)
    ensures
        clamped_duration(beats) >= 1,
        clamped_duration(beats) >= beats,
        beats >= 1 ==> clamped_duration(beats) == beats,
        beats == 0 ==> clamped_duration(beats) == 1,
{
}

/// The label as text, when there is one.
pub open spec fn label_view(label: Option<String>) -> Option<Seq<char>> {
    match label {
        Some(s) => Some(s@),
        None => None,
    }
}

/// What a tempo curve holds: its end tempos, its length, its shape and its
/// label.
pub struct CurveView<B> {
    pub start_bpm: B,
    pub end_bpm: B,
    pub duration_beats: u32,
    pub shape: CurveShape,
    pub label: Option<Seq<char>>,
}

/// A tempo curve: a programmed change in tempo over a duration.
///
/// The tempos are of type `B`; the curve keeps them, its length in beats
/// (at least one), its shape and an optional label.
#[derive(Debug)]
pub struct TempoCurve<B> {
    start_bpm: B,
    end_bpm: B,
    duration_beats: u32,
    shape: CurveShape,
    label: Option<String>,
}

impl<B> TempoCurve<B> {
    #[verifier::type_invariant]
    closed spec fn at_least_one_beat(self) -> bool {
        self.duration_beats >= MIN_CURVE_BEATS
    }

    /// The contents of the curve.
    pub closed spec fn view(&self) -> CurveView<B> {
        CurveView {
            start_bpm: self.start_bpm,
            end_bpm: self.end_bpm,
            duration_beats: self.duration_beats,
            shape: self.shape,
            label: label_view(self.label),
        }
    }
}

impl<B: Copy> TempoCurve<B> {
    /// A curve with the given end tempos and shape, lasting
    /// `duration_beats` raised to at least one, without a label.
    pub fn with_shape(start_bpm: B, end_bpm: B, duration_beats: u32, shape: CurveShape) -> (c: Self)
        ensures
            c@.start_bpm == start_bpm,
            c@.end_bpm == end_bpm,
            c@.duration_beats == clamped_duration(duration_beats),
            duration_beats >= 1 ==> c@.duration_beats == duration_beats,
            duration_beats == 0 ==> c@.duration_beats == 1,
            c@.shape == shape,
            c@.label is None,
    {
        let duration_beats: u32 = if duration_beats < MIN_CURVE_BEATS {
            MIN_CURVE_BEATS
        } else {
            duration_beats
        };
        TempoCurve { start_bpm, end_bpm, duration_beats, shape, label: None }
    }

    /// A programmed transition from `start_bpm` to `end_bpm`: flat when the
    /// two tempos are within tolerance (`nearly_equal`), accelerando when
    /// the end is faster (`rising`), ritardando otherwise.
    pub fn transition(
        start_bpm: B,
        end_bpm: B,
        duration_beats: u32,
        nearly_equal: bool,
        rising: bool,
    ) -> (c: Self)
        ensures
            c@.start_bpm == start_bpm,
            c@.end_bpm == end_bpm,
            c@.duration_beats == clamped_duration(duration_beats),
            duration_beats >= 1 ==> c@.duration_beats == duration_beats,
            duration_beats == 0 ==> c@.duration_beats == 1,
            c@.shape == classified_shape(nearly_equal, rising),
            c@.label is None,
    {
        Self::with_shape(start_bpm, end_bpm, duration_beats, CurveShape::classify(nearly_equal, rising))
    }

    /// A rubato-shaped curve (free fluctuation) from `base_bpm` to the
    /// fluctuated tempo `end_bpm`.
    pub fn rubato_to(base_bpm: B, end_bpm: B, duration_beats: u32) -> (c: Self)
        ensures
            c@.start_bpm == base_bpm,
            c@.end_bpm == end_bpm,
            c@.duration_beats == clamped_duration(duration_beats),
            duration_beats >= 1 ==> c@.duration_beats == duration_beats,
            duration_beats == 0 ==> c@.duration_beats == 1,
            c@.shape == CurveShape::Rubato,
            c@.label is None,
    {
        Self::with_shape(base_bpm, end_bpm, duration_beats, CurveShape::Rubato)
    }

    /// The same curve with `label` as its label.
    pub fn with_label(self, label: String) -> (c: Self)
        ensures
            c@.start_bpm == self@.start_bpm,
            c@.end_bpm == self@.end_bpm,
            c@.duration_beats == self@.duration_beats,
            c@.shape == self@.shape,
            c@.label == Some(label@),
    {
        proof {
            use_type_invariant(&self);
        }
        TempoCurve {
            start_bpm: self.start_bpm,
            end_bpm: self.end_bpm,
            duration_beats: self.duration_beats,
            shape: self.shape,
            label: Some(label),
        }
    }

    /// The shape of the curve.
    pub fn shape(&self) -> (r: CurveShape)
        ensures
            r == self@.shape,
    {
        self.shape
    }

    /// Start tempo.
    pub fn start_bpm(&self) -> (r: B)
        ensures
            r == self@.start_bpm,
    {
        self.start_bpm
    }

    /// End tempo.
    pub fn end_bpm(&self) -> (r: B)
        ensures
            r == self@.end_bpm,
    {
        self.end_bpm
    }

    /// Duration in beats; at least one.
    pub fn duration_beats(&self) -> (r: u32)
        ensures
            r == self@.duration_beats,
            r >= MIN_CURVE_BEATS,
    {
        proof {
            use_type_invariant(self);
        }
        self.duration_beats
    }

    /// The label, if any.
    pub fn label(&self) -> (r: Option<&str>)
        ensures
            r is Some <==> self@.label is Some,
            r matches Some(s) ==> self@.label == Some(s@),
    {
        match &self.label {
            Some(s) => Some(s.as_str()),
            None => None,
        }
    }

    /// Is the curve speeding up?
    pub fn is_accelerando(&self) -> (r: bool)
        ensures
            r == (self@.shape == CurveShape::Accelerando),
    {
        self.shape.is_accelerando()
    }

    /// Is the curve slowing down?
    pub fn is_ritardando(&self) -> (r: bool)
        ensures
            r == (self@.shape == CurveShape::Ritardando),
    {
        self.shape.is_ritardando()
    }
}

impl<B: Copy> Clone for TempoCurve<B> {
    /// A copy of the curve.
    fn clone(&self) -> (c: Self)
        ensures
            c@ == self@,
    {
        proof {
            use_type_invariant(self);
        }
        let label = match &self.label {
            Some(s) => Some(s.clone()),
            None => None,
        };
        TempoCurve {
            start_bpm: self.start_bpm,
            end_bpm: self.end_bpm,
            duration_beats: self.duration_beats,
            shape: self.shape,
            label,
        }
    }
}

} // verus!
