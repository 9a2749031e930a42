//! Assembling a timeline from keyframes placed at absolute or relative frames.

use vstd::prelude::*;
use crate::animation::{holds_repeat, increasing, Animated, Interpolate, Keyframe};
use crate::easing::Easing;

verus! {

/// Where a keyframe is placed.
#[derive(Clone, Copy, Debug, PartialEq, Eq, Structural)]
pub enum KeyframeTiming {
    /// At this frame of the timeline.
    Abs(u64),
    /// This many frames after the keyframe before it.
    Rel(u64),
}

/// Why what a builder was given does not make a timeline.
#[derive(Clone, Copy, Debug, PartialEq, Eq, Structural)]
pub enum InvalidTimeline {
    /// Nothing was added.
    Empty,
    /// The first addition is relative or a hold: there is no keyframe before
    /// it.
    Unanchored,
    /// Addition `index`, counted from 0, falls on or before the keyframe
    /// before it.
    NotIncreasing { index: usize },
    /// Addition `index`, counted from 0, falls beyond the last frame that can
    /// be counted.
    OutOfRange { index: usize },
}

/// What a builder has been given so far: the keyframes that its additions
/// resolved to, or the reason why the first addition that could not be placed
/// could not.
pub type Staged<T> = Result<Seq<Keyframe<T>>, InvalidTimeline>;

/// The frame `delta` frames after the last keyframe of `ks`.
pub open spec fn advance<T>(ks: Seq<Keyframe<T>>, delta: u64) -> Result<u64, InvalidTimeline> {
    if ks.len() == 0 {
        Err(InvalidTimeline::Unanchored)
    } else if delta == 0 {
        Err(InvalidTimeline::NotIncreasing { index: ks.len() as usize })
    } else if ks.last().frame + delta > u64::MAX {
        Err(InvalidTimeline::OutOfRange { index: ks.len() as usize })
    } else {
        Ok((ks.last().frame + delta) as u64)
    }
}

/// The frame at which `timing` places a keyframe after the keyframes `ks`.
///
/// An absolute keyframe must lie after the last one. A relative keyframe
/// needs a keyframe before it and a positive distance from it.
pub open spec fn resolve<T>(ks: Seq<Keyframe<T>>, timing: KeyframeTiming) -> Result<
    u64,
    InvalidTimeline,
> {
    match timing {
        KeyframeTiming::Abs(frame) => {
            if ks.len() > 0 && frame <= ks.last().frame {
                Err(InvalidTimeline::NotIncreasing { index: ks.len() as usize })
            } else {
                Ok(frame)
            }
        },
        KeyframeTiming::Rel(delta) => advance(ks, delta),
    }
}

/// What is staged after a keyframe was added to `staged`. Once an addition
/// could not be placed, nothing changes any more.
pub open spec fn with_keyframe<T>(
    staged: Staged<T>,
    timing: KeyframeTiming,
    easing: Easing,
    value: T,
) -> Staged<T> {
    match staged {
        Err(e) => Err(e),
        Ok(ks) => match resolve(ks, timing) {
            Err(e) => Err(e),
            Ok(frame) => Ok(ks.push(Keyframe { frame, easing, value, held: false })),
        },
    }
}

/// What is staged after a hold was added to `staged`: a keyframe `duration`
/// frames after the last one, which repeats its value and is marked `held`.
pub open spec fn with_hold<T>(staged: Staged<T>, duration: u64) -> Staged<T> {
    match staged {
        Err(e) => Err(e),
        Ok(ks) => match advance(ks, duration) {
            Err(e) => Err(e),
            Ok(frame) => Ok(
                ks.push(
                    Keyframe { frame, easing: Easing::Linear, value: ks.last().value, held: true },
                ),
            ),
        },
    }
}

/// The keyframes of the timeline that is built from what is staged. A
/// timeline has at least one keyframe.
pub open spec fn built<T>(staged: Staged<T>) -> Staged<T> {
    match staged {
        Err(e) => Err(e),
        Ok(ks) => if ks.len() == 0 {
            Err(InvalidTimeline::Empty)
        } else {
            Ok(ks)
        },
    }
}

/// Keyframes in order stay in order when a keyframe is added at a frame that
/// [`resolve`] or [`advance`] gave.
pub proof fn law_added_in_order<T>(ks: Seq<Keyframe<T>>, k: Keyframe<T>)
    requires
        increasing(ks),
        holds_repeat(ks),
        ks.len() > 0 ==> ks.last().frame < k.frame,
        k.held ==> ks.len() > 0 && k.value == ks.last().value,
    ensures
        increasing(ks.push(k)),
        holds_repeat(ks.push(k)),
{
    let all = ks.push(k);
    assert forall|i: int, j: int| 0 <= i < j < all.len() implies all[i].frame < all[j].frame by {
        if j == ks.len() {
            if i < ks.len() - 1 {
                assert(ks[i].frame < ks[ks.len() - 1].frame);
            }
        } else {
            assert(ks[i].frame < ks[j].frame);
        }
    }
    assert forall|i: int| 0 <= i < all.len() && #[trigger] all[i].held implies i > 0
        && all[i].value == all[i - 1].value by {
        if i < ks.len() {
            assert(ks[i].held);
        }
    }
}

/// Collects the keyframes of one animated property.
///
/// Every addition is resolved against the keyframes before it. The first one
/// that cannot be placed is remembered, and [`AnimatedBuilder::build`]
/// reports it. No two keyframes of a timeline share a frame: an addition that
/// falls on the frame of the keyframe before it is refused like one that
/// falls before it.
pub struct AnimatedBuilder<T> {
    keyframes: Vec<Keyframe<T>>,
    error: Option<InvalidTimeline>,
}

impl<T> View for AnimatedBuilder<T> {
    type V = Staged<T>;

    closed spec fn view(&self) -> Staged<T> {
        match self.error {
            Some(e) => Err(e),
            None => Ok(self.keyframes@),
        }
    }
}

impl<T> Animated<T> {
    /// A builder to which nothing was added.
    pub fn builder() -> (r: AnimatedBuilder<T>)
        ensures
            r@ == Ok::<_, InvalidTimeline>(Seq::<Keyframe<T>>::empty()),
    {
        AnimatedBuilder { keyframes: Vec::new(), error: None }
    }
}

impl<T> AnimatedBuilder<T> {
    /// The keyframes that were staged are in order.
    #[verifier::type_invariant]
    spec fn staged_in_order(&self) -> bool {
        increasing(self.keyframes@) && holds_repeat(self.keyframes@)
    }

    /// The frame `delta` frames after the last keyframe.
    fn frame_after(&self, delta: u64) -> (r: Result<u64, InvalidTimeline>)
        ensures
            r == advance(self.keyframes@, delta),
    {
        let n: usize = self.keyframes.len();
        if n == 0 {
            Err(InvalidTimeline::Unanchored)
        } else if delta == 0 {
            Err(InvalidTimeline::NotIncreasing { index: n })
        } else {
            match self.keyframes[n - 1].frame.checked_add(delta) {
                Some(frame) => Ok(frame),
                None => Err(InvalidTimeline::OutOfRange { index: n }),
            }
        }
    }

    /// The frame at which `timing` places the next keyframe.
    fn frame_for(&self, timing: KeyframeTiming) -> (r: Result<u64, InvalidTimeline>)
        ensures
            r == resolve(self.keyframes@, timing),
    {
        match timing {
            KeyframeTiming::Abs(frame) => {
                let n: usize = self.keyframes.len();
                if n > 0 && frame <= self.keyframes[n - 1].frame {
                    Err(InvalidTimeline::NotIncreasing { index: n })
                } else {
                    Ok(frame)
                }
            },
            KeyframeTiming::Rel(delta) => self.frame_after(delta),
        }
    }

    /// Adds a keyframe with the given value, approached by `easing`.
    pub fn keyframe(self, timing: KeyframeTiming, easing: Easing, value: T) -> (r: Self)
        ensures
            r@ == with_keyframe(self@, timing, easing, value),
    {
        proof {
            use_type_invariant(&self);
        }
        if self.error.is_some() {
            return self;
        }
        match self.frame_for(timing) {
            Err(e) => AnimatedBuilder { keyframes: self.keyframes, error: Some(e) },
            Ok(frame) => {
                let mut keyframes = self.keyframes;
                proof {
                    law_added_in_order(
                        keyframes@,
                        Keyframe { frame, easing, value, held: false },
                    );
                }
                keyframes.push(Keyframe { frame, easing, value, held: false });
                AnimatedBuilder { keyframes, error: None }
            },
        }
    }

    /// The timeline of what was added, or the reason why it makes none.
    pub fn build(self) -> (r: Result<Animated<T>, InvalidTimeline>)
        ensures
            match built(self@) {
                Ok(ks) => r is Ok && r.unwrap()@ == ks && r.unwrap().wf(),
                Err(e) => r == Err::<Animated<T>, _>(e),
            },
    {
        proof {
            use_type_invariant(&self);
        }
        match self.error {
            Some(e) => Err(e),
            None => {
                if self.keyframes.len() == 0 {
                    Err(InvalidTimeline::Empty)
                } else {
                    Ok(Animated::assemble(self.keyframes))
                }
            },
        }
    }
}

impl<T: Copy> AnimatedBuilder<T> {
    /// Keeps the value before for `duration` more frames.
    pub fn hold(self, duration: u64) -> (r: Self)
        ensures
            r@ == with_hold(self@, duration),
    {
        proof {
            use_type_invariant(&self);
        }
        if self.error.is_some() {
            return self;
        }
        match self.frame_after(duration) {
            Err(e) => AnimatedBuilder { keyframes: self.keyframes, error: Some(e) },
            Ok(frame) => {
                let value = self.keyframes[self.keyframes.len() - 1].value;
                let mut keyframes = self.keyframes;
                proof {
                    law_added_in_order(
                        keyframes@,
                        Keyframe { frame, easing: Easing::Linear, value, held: true },
                    );
                }
                keyframes.push(Keyframe { frame, easing: Easing::Linear, value, held: true });
                AnimatedBuilder { keyframes, error: None }
            },
        }
    }
}

impl<T: Interpolate + Copy> AnimatedBuilder<T> {
    /// A hold keeps the value: a timeline whose keyframes begin with `ks`
    /// and the keyframe of a hold of `duration` frames evaluates, from the
    /// last frame of `ks` and for as many frames as are held, to exactly the
    /// last value of `ks`.
    pub proof fn law_hold_keeps_value(
        ks: Seq<Keyframe<T>>,
        duration: u64,
        timeline: Animated<T>,
        frame: u64,
        r: T,
    )
        requires
            timeline.wf(),
            with_hold(Ok(ks), duration) is Ok,
            ks.len() < timeline@.len(),
            timeline@.take(ks.len() as int + 1) == with_hold(Ok(ks), duration).unwrap(),
            ks.last().frame <= frame <= ks.last().frame + duration,
            timeline.evaluates_to(frame, r),
        ensures
            r == ks.last().value,
    {
        let n = ks.len() as int;
        let staged = with_hold(Ok(ks), duration).unwrap();
        assert(timeline@[n] == staged[n]);
        assert(timeline@[n - 1] == staged[n - 1]);
        timeline.law_evaluate_held(n, frame, r);
    }
}

} // verus!
