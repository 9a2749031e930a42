//! Easing identifiers and the progress handed to an interpolation.

use vstd::prelude::*;

verus! {

/// The rate-of-change curve by which a keyframe is approached.
///
/// An easing maps normalized progress in `[0, 1]` to eased progress; every curve
/// maps 0 to 0 and 1 to 1, and the `Back` curves overshoot in between. The curve
/// itself is numeric and is applied by the value type's [`Interpolate`]
/// implementation; this crate only carries the identifier.
///
/// [`Interpolate`]: crate::animation::Interpolate
#[derive(Clone, Copy, Debug, PartialEq, Eq, Structural)]
pub enum Easing {
    Linear,
    InQuadratic,
    OutQuadratic,
    InOutQuadratic,
    InCubic,
    OutCubic,
    InOutCubic,
    InQuartic,
    OutQuartic,
    InOutQuartic,
    InQuintic,
    OutQuintic,
    InOutQuintic,
    InExponential,
    OutExponential,
    InOutExponential,
    InBack,
    OutBack,
    InOutBack,
}

/// How far a frame lies between two keyframes: `elapsed` of `span` frames have
/// passed since the earlier one, and the later one is approached by `easing`.
#[derive(Clone, Copy, Debug, PartialEq, Eq, Structural)]
pub struct Progress {
    pub elapsed: u64,
    pub span: u64,
    pub easing: Easing,
}

impl Progress {
    /// The frame lies strictly between the two keyframes, so that
    /// `elapsed / span` is a proper fraction.
    pub open spec fn wf(self) -> bool {
        0 < self.elapsed < self.span
    }
}

} // verus!
