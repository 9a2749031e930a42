//! Timelines of keyframes and their evaluation at a frame.

use vstd::prelude::*;
use crate::easing::{Easing, Progress};

verus! {

/// A sample of an animated property: at `frame` the property has `value`.
///
/// `easing` describes how the value is approached from the keyframe before.
/// A keyframe that is `held` repeats the value of the keyframe before it, so
/// the property is constant on the segment that leads to it.
#[derive(Debug)]
pub struct Keyframe<T> {
    pub frame: u64,
    pub easing: Easing,
    pub value: T,
    pub held: bool,
}

/// Where a frame falls on a timeline.
#[derive(Clone, Copy, Debug, PartialEq, Eq, Structural)]
pub enum Position {
    /// The property has the value of keyframe `index`, unchanged.
    At { index: usize },
    /// The property is a blend of keyframes `from` and `from + 1`.
    Between { from: usize, progress: Progress },
}

/// A value type that can be blended.
///
/// `lerp` blends `self` with `to`: it eases the fraction
/// `progress.elapsed / progress.span` by `progress.easing` and interpolates
/// linearly by the eased fraction, which may lie outside `[0, 1]`.
pub trait Interpolate: Sized {
    fn lerp(&self, to: &Self, progress: Progress) -> (r: Self)
        requires
            progress.wf(),
    ;
}

/// The frames of `ks` increase strictly from each keyframe to the next.
pub open spec fn increasing<T>(ks: Seq<Keyframe<T>>) -> bool {
    forall|i: int, j: int| 0 <= i < j < ks.len() ==> ks[i].frame < ks[j].frame
}

/// Every held keyframe of `ks` has a predecessor and repeats its value.
pub open spec fn holds_repeat<T>(ks: Seq<Keyframe<T>>) -> bool {
    forall|i: int|
        0 <= i < ks.len() && #[trigger] ks[i].held ==> i > 0 && ks[i].value == ks[i - 1].value
}

/// What a timeline requires of its keyframes: there is at least one and no
/// more than an index can count, their frames increase strictly, and held
/// keyframes repeat the value before them.
pub open spec fn well_formed<T>(ks: Seq<Keyframe<T>>) -> bool {
    &&& 0 < ks.len() <= usize::MAX
    &&& increasing(ks)
    &&& holds_repeat(ks)
}

/// Keyframes `i` and `i + 1` of `ks` bracket `frame`.
pub open spec fn brackets<T>(ks: Seq<Keyframe<T>>, i: int, frame: u64) -> bool {
    0 <= i < ks.len() - 1 && ks[i].frame <= frame < ks[i + 1].frame
}

/// The index of the keyframe that starts the segment around `frame`.
/// It is unique when the frames increase (see [`law_bracket_unique`]).
pub open spec fn bracket<T>(ks: Seq<Keyframe<T>>, frame: u64) -> int {
    choose|i: int| brackets(ks, i, frame)
}

/// Where `frame` falls among the keyframes `ks`.
///
/// Up to the first keyframe the property has the first value, from the last
/// keyframe on it has the last value. In between, the frame lies in exactly
/// one segment: at the segment's first frame, and anywhere in a segment that
/// leads to a held keyframe, the property has the value of the segment's first
/// keyframe; elsewhere it is a blend of the segment's two keyframes, eased as
/// the second one says.
pub open spec fn position_in<T>(ks: Seq<Keyframe<T>>, frame: u64) -> Position {
    if frame <= ks.first().frame {
        Position::At { index: 0 }
    } else if frame >= ks.last().frame {
        Position::At { index: (ks.len() - 1) as usize }
    } else {
        let i = bracket(ks, frame);
        if frame == ks[i].frame || ks[i + 1].held {
            Position::At { index: i as usize }
        } else {
            Position::Between {
                from: i as usize,
                progress: Progress {
                    elapsed: (frame - ks[i].frame) as u64,
                    span: (ks[i + 1].frame - ks[i].frame) as u64,
                    easing: ks[i + 1].easing,
                },
            }
        }
    }
}

/// `position` is where `frame` falls among the keyframes `ks`, told without
/// naming the segment first: for increasing keyframes this holds of one
/// position only, which is [`position_in`] (see [`law_sits_where_positioned`]).
pub open spec fn sits<T>(ks: Seq<Keyframe<T>>, frame: u64, position: Position) -> bool {
    match position {
        Position::At { index } => {
            &&& index < ks.len()
            &&& {
                ||| index == 0 && frame <= ks[0].frame
                ||| index == ks.len() - 1 && frame >= ks[index as int].frame
                ||| {
                    &&& index + 1 < ks.len()
                    &&& ks[index as int].frame <= frame < ks[index + 1].frame
                    &&& (frame == ks[index as int].frame || ks[index + 1].held)
                }
            }
        },
        Position::Between { from, progress } => {
            &&& from + 1 < ks.len()
            &&& ks[from as int].frame < frame < ks[from + 1].frame
            &&& !ks[from + 1].held
            &&& progress == Progress {
                elapsed: (frame - ks[from as int].frame) as u64,
                span: (ks[from + 1].frame - ks[from as int].frame) as u64,
                easing: ks[from + 1].easing,
            }
        },
    }
}

/// A segment of increasing keyframes is the only one that brackets its frames.
pub proof fn law_bracket_unique<T>(ks: Seq<Keyframe<T>>, i: int, frame: u64)
    requires
        increasing(ks),
        brackets(ks, i, frame),
    ensures
        bracket(ks, frame) == i,
{
    let j = bracket(ks, frame);
    assert(brackets(ks, j, frame));
    if j < i {
        assert(ks[j + 1].frame <= ks[i].frame) by {
            if j + 1 < i {
                assert(ks[j + 1].frame < ks[i].frame);
            }
        }
    } else if i < j {
        assert(ks[i + 1].frame <= ks[j].frame) by {
            if i + 1 < j {
                assert(ks[i + 1].frame < ks[j].frame);
            }
        }
    }
}

/// The position of a frame names keyframes of the timeline, and a blend is
/// always of two neighbours that are not held, strictly between their frames.
pub proof fn law_position_in_range<T>(ks: Seq<Keyframe<T>>, frame: u64)
    requires
        well_formed(ks),
    ensures
        match position_in(ks, frame) {
            Position::At { index } => index < ks.len(),
            Position::Between { from, progress } => {
                &&& from + 1 < ks.len()
                &&& ks[from as int].frame < frame < ks[from + 1].frame
                &&& !ks[from + 1].held
                &&& progress.wf()
                &&& progress.elapsed == frame - ks[from as int].frame
                &&& progress.span == ks[from + 1].frame - ks[from as int].frame
                &&& progress.easing == ks[from + 1].easing
            },
        },
{
    if ks.first().frame < frame < ks.last().frame {
        lemma_bracket_exists(ks, frame);
        let i = bracket(ks, frame);
        assert(brackets(ks, i, frame));
    }
}

/// A frame strictly between the first and the last keyframe lies in a segment.
proof fn lemma_bracket_exists<T>(ks: Seq<Keyframe<T>>, frame: u64)
    requires
        ks.len() > 0,
        ks.first().frame < frame < ks.last().frame,
    ensures
        exists|i: int| brackets(ks, i, frame),
    decreases ks.len(),
{
    let n = ks.len() as int;
    assert(n >= 2);
    if ks[n - 2].frame <= frame {
        assert(brackets(ks, n - 2, frame));
    } else {
        let front = ks.drop_last();
        lemma_bracket_exists(front, frame);
        let i = choose|i: int| brackets(front, i, frame);
        assert(brackets(ks, i, frame));
    }
}

/// A frame sits at exactly one position, the one that [`position_in`] gives.
pub proof fn law_sits_where_positioned<T>(ks: Seq<Keyframe<T>>, frame: u64, position: Position)
    requires
        well_formed(ks),
    ensures
        sits(ks, frame, position) <==> position == position_in(ks, frame),
{
    let n = ks.len() as int;
    let found = position_in(ks, frame);
    if n > 1 {
        assert(ks[0].frame < ks[n - 1].frame);
    }
    let inside = ks[0].frame < frame < ks[n - 1].frame;
    if inside {
        lemma_bracket_exists(ks, frame);
        assert(brackets(ks, bracket(ks, frame), frame));
    }
    assert(sits(ks, frame, found));
    if sits(ks, frame, position) {
        match position {
            Position::At { index } => {
                if 0 < index {
                    assert(ks[0].frame < ks[index as int].frame);
                }
                if index + 1 < n - 1 {
                    assert(ks[index + 1].frame < ks[n - 1].frame);
                }
                if inside && index + 1 < n && ks[index as int].frame <= frame < ks[index
                    + 1].frame {
                    law_bracket_unique(ks, index as int, frame);
                }
                assert(position == found);
            },
            Position::Between { from, progress } => {
                if 0 < from {
                    assert(ks[0].frame < ks[from as int].frame);
                }
                if from + 1 < n - 1 {
                    assert(ks[from + 1].frame < ks[n - 1].frame);
                }
                law_bracket_unique(ks, from as int, frame);
                assert(position == found);
            },
        }
    }
}

/// At the frame of a keyframe the property has that keyframe's value.
pub proof fn law_keyframe_is_met<T>(ks: Seq<Keyframe<T>>, i: int)
    requires
        well_formed(ks),
        0 <= i < ks.len(),
    ensures
        position_in(ks, ks[i].frame) == (Position::At { index: i as usize }),
{
    let frame = ks[i].frame;
    if 0 < i < ks.len() - 1 {
        assert(ks[0].frame < ks[i].frame);
        assert(ks[i].frame < ks[ks.len() - 1].frame);
        law_bracket_unique(ks, i, frame);
    } else if i == 0 {
    } else {
        assert(ks[0].frame < ks[i].frame);
    }
}

/// Up to the first keyframe the property has the first value, and from the
/// last keyframe on it has the last value.
pub proof fn law_clamped_outside<T>(ks: Seq<Keyframe<T>>, frame: u64)
    requires
        well_formed(ks),
    ensures
        frame <= ks.first().frame ==> position_in(ks, frame) == (Position::At { index: 0 }),
        frame >= ks.last().frame ==> position_in(ks, frame) == (Position::At {
            index: (ks.len() - 1) as usize,
        }),
{
    if ks.len() > 1 {
        assert(ks[0].frame < ks[ks.len() - 1].frame);
    }
}

/// A timeline of one keyframe has that keyframe's value at every frame.
pub proof fn law_single_keyframe<T>(ks: Seq<Keyframe<T>>, frame: u64)
    requires
        well_formed(ks),
        ks.len() == 1,
    ensures
        position_in(ks, frame) == (Position::At { index: 0 }),
{
}

/// Strictly inside a segment that does not lead to a held keyframe, the
/// property is the blend of the segment's two keyframes, eased as the second
/// one says, by the fraction of the segment that has passed.
pub proof fn law_blended_inside<T>(ks: Seq<Keyframe<T>>, i: int, frame: u64)
    requires
        well_formed(ks),
        0 <= i < ks.len() - 1,
        ks[i].frame < frame < ks[i + 1].frame,
        !ks[i + 1].held,
    ensures
        position_in(ks, frame) == (Position::Between {
            from: i as usize,
            progress: Progress {
                elapsed: (frame - ks[i].frame) as u64,
                span: (ks[i + 1].frame - ks[i].frame) as u64,
                easing: ks[i + 1].easing,
            },
        }),
{
    if 0 < i {
        assert(ks[0].frame < ks[i].frame);
    }
    if i + 1 < ks.len() - 1 {
        assert(ks[i + 1].frame < ks[ks.len() - 1].frame);
    }
    law_bracket_unique(ks, i, frame);
}

/// From the keyframe before a held keyframe up to the held keyframe itself,
/// the property has the value that is held.
pub proof fn law_held_span<T>(ks: Seq<Keyframe<T>>, i: int, frame: u64)
    requires
        well_formed(ks),
        0 < i < ks.len(),
        ks[i].held,
        ks[i - 1].frame <= frame <= ks[i].frame,
    ensures
        position_in(ks, frame) is At,
        ks[position_in(ks, frame)->index as int].value == ks[i - 1].value,
{
    if frame == ks[i].frame {
        law_keyframe_is_met(ks, i);
    } else if frame == ks[i - 1].frame {
        law_keyframe_is_met(ks, i - 1);
    } else {
        if 0 < i - 1 {
            assert(ks[0].frame < ks[i - 1].frame);
        }
        if i < ks.len() - 1 {
            assert(ks[i].frame < ks[ks.len() - 1].frame);
        }
        law_bracket_unique(ks, i - 1, frame);
    }
}

/// The timeline of one animated property: its keyframes in increasing order
/// of frame. A timeline is immutable once built.
pub struct Animated<T> {
    keyframes: Vec<Keyframe<T>>,
}

impl<T> View for Animated<T> {
    type V = Seq<Keyframe<T>>;

    closed spec fn view(&self) -> Seq<Keyframe<T>> {
        self.keyframes@
    }
}

impl<T> Animated<T> {
    /// The invariant of every timeline: its keyframes are [`well_formed`].
    #[verifier::type_invariant]
    pub open spec fn wf(&self) -> bool {
        well_formed(self@)
    }

    /// The keyframes of a property that stays at `value`: one keyframe at
    /// frame 0.
    pub open spec fn constant_keyframes(value: T) -> Seq<Keyframe<T>> {
        seq![Keyframe { frame: 0, easing: Easing::Linear, value, held: false }]
    }

    /// The timeline of a property that does not change.
    pub fn constant(value: T) -> (r: Self)
        ensures
            r.wf(),
            r@ == Self::constant_keyframes(value),
    {
        let mut keyframes: Vec<Keyframe<T>> = Vec::new();
        keyframes.push(Keyframe { frame: 0, easing: Easing::Linear, value, held: false });
        assert(keyframes@ =~= Self::constant_keyframes(value));
        Animated { keyframes }
    }

    /// The timeline that holds the given keyframes.
    pub(crate) fn assemble(keyframes: Vec<Keyframe<T>>) -> (r: Self)
        requires
            well_formed(keyframes@),
        ensures
            r.wf(),
            r@ == keyframes@,
    {
        Animated { keyframes }
    }

    /// The keyframes, in increasing order of frame.
    pub fn keyframes(&self) -> (r: &Vec<Keyframe<T>>)
        ensures
            r@ == self@,
            well_formed(r@),
    {
        proof {
            use_type_invariant(self);
        }
        &self.keyframes
    }

    /// The number of keyframes; at least one.
    pub fn len(&self) -> (n: usize)
        ensures
            n == self@.len(),
            n > 0,
    {
        proof {
            use_type_invariant(self);
        }
        self.keyframes.len()
    }

    /// Where `frame` falls on this timeline, found by binary search.
    pub fn locate(&self, frame: u64) -> (r: Position)
        ensures
            r == position_in(self@, frame),
            sits(self@, frame, r),
    {
        proof {
            use_type_invariant(self);
            law_sits_where_positioned(self@, frame, position_in(self@, frame));
        }
        let n: usize = self.keyframes.len();
        if frame <= self.keyframes[0].frame {
            return Position::At { index: 0 };
        }
        if frame >= self.keyframes[n - 1].frame {
            return Position::At { index: n - 1 };
        }
        let mut lo: usize = 0;
        let mut hi: usize = n - 1;
        while hi - lo > 1
            invariant
                lo < hi < n,
                n == self.keyframes.len(),
                increasing(self.keyframes@),
                self.keyframes[lo as int].frame <= frame < self.keyframes[hi as int].frame,
            decreases hi - lo,
        {
            let mid: usize = lo + (hi - lo) / 2;
            if self.keyframes[mid].frame <= frame {
                lo = mid;
            } else {
                hi = mid;
            }
        }
        proof {
            law_bracket_unique(self.keyframes@, lo as int, frame);
        }
        let from = &self.keyframes[lo];
        let to = &self.keyframes[lo + 1];
        if frame == from.frame || to.held {
            Position::At { index: lo }
        } else {
            Position::Between {
                from: lo,
                progress: Progress {
                    elapsed: frame - from.frame,
                    span: to.frame - from.frame,
                    easing: to.easing,
                },
            }
        }
    }
}

impl<T: Interpolate + Copy> Animated<T> {
    /// `r` is a result of blending keyframe `i` with its successor `j` at
    /// `frame`: of easing the fraction of the segment that has passed as
    /// keyframe `j` says, and interpolating by it.
    pub open spec fn blended(&self, i: int, j: int, frame: u64, r: T) -> bool {
        call_ensures(
            T::lerp,
            (
                &self@[i].value,
                &self@[j].value,
                Progress {
                    elapsed: (frame - self@[i].frame) as u64,
                    span: (self@[j].frame - self@[i].frame) as u64,
                    easing: self@[j].easing,
                },
            ),
            r,
        )
    }

    /// `r` is a value that the property may have at `frame`.
    ///
    /// Up to the first keyframe it is the first value and from the last
    /// keyframe on the last value: a timeline does not extrapolate. At the
    /// frame of a keyframe it is the value of that keyframe. While a value is
    /// held, from the keyframe before a held keyframe up to the held keyframe,
    /// it is the value that is held. Strictly inside any other segment it is a
    /// blend of the segment's two keyframes.
    pub open spec fn evaluates_to(&self, frame: u64, r: T) -> bool {
        &&& frame <= self@.first().frame ==> r == self@.first().value
        &&& frame >= self@.last().frame ==> r == self@.last().value
        &&& forall|i: int|
            0 <= i < self@.len() && frame == (#[trigger] self@[i]).frame ==> r == self@[i].value
        &&& forall|i: int, j: int|
            0 <= i && j == i + 1 && j < self@.len() && (#[trigger] self@[j]).held && (
            #[trigger] self@[i]).frame <= frame <= self@[j].frame ==> r == self@[i].value
        &&& forall|i: int, j: int|
            0 <= i && j == i + 1 && j < self@.len() && !self@[j].held && (
            #[trigger] self@[i]).frame < frame < (#[trigger] self@[j]).frame ==> self.blended(
                i,
                j,
                frame,
                r,
            )
    }

    /// `r` is a value that the property may have at `position`: the value of
    /// the keyframe that it names, or a result of blending the two keyframes
    /// that it names by the progress that it gives.
    pub open spec fn evaluates_at(&self, position: Position, r: T) -> bool {
        match position {
            Position::At { index } => r == self@[index as int].value,
            Position::Between { from, progress } => call_ensures(
                T::lerp,
                (&self@[from as int].value, &self@[from + 1].value, progress),
                r,
            ),
        }
    }

    /// The value of the property at `frame`: what its position on the
    /// timeline says (see [`Animated::locate`]).
    pub fn evaluate(&self, frame: u64) -> (r: T)
        ensures
            self.evaluates_to(frame, r),
            self.evaluates_at(position_in(self@, frame), r),
    {
        proof {
            use_type_invariant(self);
        }
        let position = self.locate(frame);
        proof {
            law_position_in_range(self@, frame);
        }
        let r = match position {
            Position::At { index } => self.keyframes[index].value,
            Position::Between { from, progress } => {
                self.keyframes[from].value.lerp(&self.keyframes[from + 1].value, progress)
            },
        };
        proof {
            self.law_evaluates_at_position(frame, r);
        }
        r
    }

    /// A value is one that the property may have at a frame exactly if it is
    /// one that it may have at the position of the frame.
    pub proof fn law_evaluates_at_position(&self, frame: u64, r: T)
        requires
            self.wf(),
        ensures
            self.evaluates_to(frame, r) <==> self.evaluates_at(position_in(self@, frame), r),
    {
        let ks = self@;
        let position = position_in(ks, frame);
        law_position_in_range(ks, frame);
        law_clamped_outside(ks, frame);
        law_sits_where_positioned(ks, frame, position);
        assert forall|i: int| 0 <= i < ks.len() && frame == (#[trigger] ks[i]).frame implies position
            == (Position::At { index: i as usize }) by {
            law_keyframe_is_met(ks, i);
        }
        assert forall|i: int, j: int|
            0 <= i && j == i + 1 && j < ks.len() && (#[trigger] ks[j]).held && (#[trigger] ks[i]).frame
                <= frame <= ks[j].frame implies position is At && ks[position->index as int].value
            == ks[i].value by {
            law_held_span(ks, j, frame);
        }
        assert forall|i: int, j: int|
            0 <= i && j == i + 1 && j < ks.len() && !ks[j].held && (#[trigger] ks[i]).frame < frame < (
            #[trigger] ks[j]).frame implies position == (Position::Between {
            from: i as usize,
            progress: Progress {
                elapsed: (frame - ks[i].frame) as u64,
                span: (ks[j].frame - ks[i].frame) as u64,
                easing: ks[j].easing,
            },
        }) by {
            law_blended_inside(ks, i, frame);
        }
        if self.evaluates_to(frame, r) {
            match position {
                Position::At { index } => {
                    let i = index as int;
                    if i + 1 < ks.len() && ks[i].frame <= frame < ks[i + 1].frame {
                        if frame != ks[i].frame {
                            assert(ks[i + 1].held);
                        }
                    }
                },
                Position::Between { from, progress } => {
                    assert(self.blended(from as int, from + 1, frame, r));
                },
            }
        }
    }

    /// A timeline does not extrapolate: up to its first keyframe it
    /// evaluates to the first value, from its last keyframe on to the last.
    pub proof fn law_evaluate_outside(&self, frame: u64, r: T)
        requires
            self.wf(),
            self.evaluates_to(frame, r),
        ensures
            frame <= self@.first().frame ==> r == self@.first().value,
            frame >= self@.last().frame ==> r == self@.last().value,
    {
    }

    /// At the frame of a keyframe a timeline evaluates to that keyframe's
    /// value.
    pub proof fn law_evaluate_keyframe(&self, i: int, r: T)
        requires
            self.wf(),
            0 <= i < self@.len(),
            self.evaluates_to(self@[i].frame, r),
        ensures
            r == self@[i].value,
    {
    }

    /// While a value is held, a timeline evaluates to exactly that value:
    /// from the keyframe before a held keyframe up to the held keyframe.
    pub proof fn law_evaluate_held(&self, i: int, frame: u64, r: T)
        requires
            self.wf(),
            0 < i < self@.len(),
            self@[i].held,
            self@[i - 1].frame <= frame <= self@[i].frame,
            self.evaluates_to(frame, r),
        ensures
            r == self@[i - 1].value,
    {
    }

    /// Evaluation has no state: two timelines with the same keyframes sit at
    /// the same position for a frame, so two evaluations at one frame return
    /// the same keyframe's value or blend the same two values by the same
    /// progress. Where the blend of the value type is a function of its
    /// arguments, the two results are equal.
    pub proof fn law_evaluate_repeatable(&self, other: &Self, frame: u64, r1: T, r2: T)
        requires
            self.wf(),
            self@ == other@,
            self.evaluates_to(frame, r1),
            other.evaluates_to(frame, r2),
            forall|a: T, b: T, p: Progress, x: T, y: T|
                call_ensures(T::lerp, (&a, &b, p), x) && call_ensures(T::lerp, (&a, &b, p), y)
                    ==> x == y,
        ensures
            r1 == r2,
    {
        self.law_evaluates_at_position(frame, r1);
        other.law_evaluates_at_position(frame, r2);
    }
}

} // verus!
