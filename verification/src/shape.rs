use vstd::prelude::*;

verus! {

/// Shape of a tempo change over time.
#[derive(Debug, Clone, Copy, PartialEq, Eq, Structural)]
pub enum CurveShape {
    /// Gradually speeding up.
    Accelerando,
    /// Gradually slowing down.
    Ritardando,
    /// Free rubato (expressive fluctuation).
    Rubato,
    /// Constant tempo (no change).
    Flat,
}

/// The shape a programmed curve takes, given whether its two end tempos are
/// within tolerance of each other and, if not, whether the end is faster.
pub open spec fn classified_shape(nearly_equal: bool, rising: bool) -> CurveShape {
    if nearly_equal {
        CurveShape::Flat
    } else if rising {
        CurveShape::Accelerando
    } else {
        CurveShape::Ritardando
    }
}

impl CurveShape {
    /// Classifies a curve from the comparison of its end tempos: flat when
    /// they are within tolerance, accelerando when the end is faster,
    /// ritardando otherwise.
    pub fn classify(nearly_equal: bool, rising: bool) -> (shape: CurveShape)
        ensures
            shape == classified_shape(nearly_equal, rising),
    {
        if nearly_equal {
            CurveShape::Flat
        } else if rising {
            CurveShape::Accelerando
        } else {
            CurveShape::Ritardando
        }
    }

    /// Whether the curve speeds up.
    pub fn is_accelerando(&self) -> (r: bool)
        ensures
            r == (*self == CurveShape::Accelerando),
    {
        *self == CurveShape::Accelerando
    }

    /// Whether the curve slows down.
    pub fn is_ritardando(&self) -> (r: bool)
        ensures
            r == (*self == CurveShape::Ritardando),
    {
        *self == CurveShape::Ritardando
    }

    /// Whether positions along the curve are eased (smoothstep) rather than
    /// taken linearly: every shape but `Flat` is eased.
    pub fn is_eased(&self) -> (r: bool)
        ensures
            r == (*self != CurveShape::Flat),
    {
        *self != CurveShape::Flat
    }
}

} // verus!
