use vide::animation::{Animated, Interpolate, Position};
use vide::builder::{InvalidTimeline, KeyframeTiming};
use vide::easing::{Easing, Progress};

/// A scalar property. Its blend eases the fraction of the segment and
/// interpolates linearly, without clamping.
#[derive(Clone, Copy, Debug, PartialEq)]
struct Scalar(f64);

fn ease(easing: Easing, t: f64) -> f64 {
    match easing {
        Easing::Linear => t,
        Easing::InQuadratic => t * t,
        Easing::OutQuadratic => 1.0 - (1.0 - t) * (1.0 - t),
        Easing::InCubic => t * t * t,
        Easing::InBack => 2.70158 * t * t * t - 1.70158 * t * t,
        other => panic!("{:?} is not used in these tests", other),
    }
}

impl Interpolate for Scalar {
    fn lerp(&self, to: &Self, progress: Progress) -> Self {
        let t = ease(progress.easing, progress.elapsed as f64 / progress.span as f64);
        Scalar(self.0 + (to.0 - self.0) * t)
    }
}

fn ramp() -> Animated<Scalar> {
    Animated::builder()
        .keyframe(KeyframeTiming::Abs(0), Easing::Linear, Scalar(0.0))
        .keyframe(KeyframeTiming::Abs(60), Easing::Linear, Scalar(100.0))
        .build()
        .unwrap()
}

fn held() -> Animated<Scalar> {
    Animated::builder()
        .keyframe(KeyframeTiming::Abs(0), Easing::Linear, Scalar(1.5))
        .hold(10)
        .keyframe(KeyframeTiming::Rel(20), Easing::InQuadratic, Scalar(9.5))
        .build()
        .unwrap()
}

#[test]
fn linear_ramp_is_halfway_at_the_middle() {
    let ramp = ramp();
    assert_eq!(ramp.evaluate(30), Scalar(50.0));
    assert_eq!(ramp.evaluate(0), Scalar(0.0));
    assert_eq!(ramp.evaluate(60), Scalar(100.0));
    assert_eq!(ramp.evaluate(90), Scalar(100.0));
}

#[test]
fn linear_ramp_at_a_quarter() {
    assert_eq!(ramp().evaluate(15), Scalar(25.0));
    assert_eq!(ramp().evaluate(45), Scalar(75.0));
}

#[test]
fn evaluation_does_not_extrapolate() {
    let timeline = Animated::builder()
        .keyframe(KeyframeTiming::Abs(10), Easing::Linear, Scalar(3.0))
        .keyframe(KeyframeTiming::Abs(20), Easing::Linear, Scalar(7.0))
        .keyframe(KeyframeTiming::Abs(50), Easing::InCubic, Scalar(-2.0))
        .build()
        .unwrap();
    for frame in 0..=10 {
        assert_eq!(timeline.evaluate(frame), Scalar(3.0));
        assert_eq!(timeline.locate(frame), Position::At { index: 0 });
    }
    for frame in [50, 51, 1000, u64::MAX] {
        assert_eq!(timeline.evaluate(frame), Scalar(-2.0));
        assert_eq!(timeline.locate(frame), Position::At { index: 2 });
    }
}

#[test]
fn keyframes_are_met_exactly() {
    let timeline = Animated::builder()
        .keyframe(KeyframeTiming::Abs(3), Easing::Linear, Scalar(0.1))
        .keyframe(KeyframeTiming::Rel(7), Easing::InBack, Scalar(0.2))
        .keyframe(KeyframeTiming::Rel(1), Easing::InCubic, Scalar(0.3))
        .keyframe(KeyframeTiming::Abs(40), Easing::OutQuadratic, Scalar(0.7))
        .build()
        .unwrap();
    let keyframes = timeline.keyframes();
    assert_eq!(keyframes.len(), 4);
    for (index, keyframe) in keyframes.iter().enumerate() {
        assert_eq!(timeline.locate(keyframe.frame), Position::At { index });
        assert_eq!(timeline.evaluate(keyframe.frame), keyframe.value);
    }
}

#[test]
fn evaluation_is_repeatable() {
    let timeline = held();
    for frame in 0..40 {
        let first = timeline.evaluate(frame);
        let second = timeline.evaluate(frame);
        assert_eq!(first, second);
        assert_eq!(timeline.locate(frame), timeline.locate(frame));
    }
}

#[test]
fn hold_keeps_the_value_for_its_span() {
    let timeline = held();
    for frame in 0..=10 {
        assert_eq!(timeline.evaluate(frame), Scalar(1.5));
    }
    assert_eq!(timeline.locate(5), Position::At { index: 0 });
    assert_eq!(timeline.locate(10), Position::At { index: 1 });
    assert_ne!(timeline.evaluate(11), Scalar(1.5));
}

#[test]
fn hold_at_the_end_keeps_the_value() {
    let timeline = Animated::builder()
        .keyframe(KeyframeTiming::Abs(0), Easing::Linear, Scalar(0.0))
        .keyframe(KeyframeTiming::Abs(4), Easing::Linear, Scalar(8.0))
        .hold(6)
        .build()
        .unwrap();
    for frame in 4..20 {
        assert_eq!(timeline.evaluate(frame), Scalar(8.0));
    }
    assert_eq!(timeline.evaluate(2), Scalar(4.0));
}

#[test]
fn builder_resolves_absolute_hold_and_relative() {
    let timeline = held();
    let keyframes = timeline.keyframes();
    assert_eq!(keyframes.len(), 3);
    assert_eq!(timeline.len(), 3);
    assert_eq!(keyframes[0].frame, 0);
    assert_eq!(keyframes[1].frame, 10);
    assert_eq!(keyframes[2].frame, 30);
    assert_eq!(keyframes[0].value, Scalar(1.5));
    assert_eq!(keyframes[1].value, Scalar(1.5));
    assert_eq!(keyframes[2].value, Scalar(9.5));
    assert!(!keyframes[0].held);
    assert!(keyframes[1].held);
    assert!(!keyframes[2].held);
    assert_eq!(keyframes[2].easing, Easing::InQuadratic);
}

#[test]
fn blend_uses_the_easing_of_the_later_keyframe() {
    let timeline = held();
    assert_eq!(
        timeline.locate(20),
        Position::Between {
            from: 1,
            progress: Progress { elapsed: 10, span: 20, easing: Easing::InQuadratic },
        }
    );
    // 1.5 + (9.5 - 1.5) * (10 / 20)^2
    assert_eq!(timeline.evaluate(20), Scalar(3.5));
}

#[test]
fn blend_may_overshoot() {
    let timeline = Animated::builder()
        .keyframe(KeyframeTiming::Abs(0), Easing::Linear, Scalar(0.0))
        .keyframe(KeyframeTiming::Abs(10), Easing::InBack, Scalar(10.0))
        .build()
        .unwrap();
    let Scalar(early) = timeline.evaluate(2);
    assert!(early < 0.0);
    let expected = 10.0 * (2.70158 * 0.008 - 1.70158 * 0.04);
    assert!((early - expected).abs() < 1e-12);
}

#[test]
fn constant_timeline_has_one_value() {
    let timeline = Animated::constant(Scalar(4.25));
    assert_eq!(timeline.len(), 1);
    assert_eq!(timeline.keyframes()[0].frame, 0);
    assert!(!timeline.keyframes()[0].held);
    for frame in [0, 1, 59, u64::MAX] {
        assert_eq!(timeline.evaluate(frame), Scalar(4.25));
    }
}

#[test]
fn locate_finds_every_segment_of_a_long_timeline() {
    let mut builder = Animated::builder();
    for i in 0..1000u64 {
        builder = builder.keyframe(KeyframeTiming::Abs(3 * i + 1), Easing::Linear, Scalar(i as f64));
    }
    let timeline = builder.build().unwrap();
    assert_eq!(timeline.locate(0), Position::At { index: 0 });
    for i in 0..999usize {
        let at = 3 * i as u64 + 1;
        assert_eq!(timeline.locate(at), Position::At { index: i });
        for elapsed in 1..3u64 {
            assert_eq!(
                timeline.locate(at + elapsed),
                Position::Between {
                    from: i,
                    progress: Progress { elapsed, span: 3, easing: Easing::Linear },
                }
            );
        }
    }
    assert_eq!(timeline.locate(2998), Position::At { index: 999 });
    assert_eq!(timeline.locate(5000), Position::At { index: 999 });
}

#[test]
fn builder_without_steps_builds_nothing() {
    let built = Animated::<Scalar>::builder().build();
    assert_eq!(built.err(), Some(InvalidTimeline::Empty));
}

#[test]
fn first_keyframe_may_not_be_relative() {
    let built = Animated::builder().keyframe(KeyframeTiming::Rel(5), Easing::Linear, Scalar(1.0)).build();
    assert_eq!(built.err(), Some(InvalidTimeline::Unanchored));
    let built = Animated::<Scalar>::builder().hold(5).build();
    assert_eq!(built.err(), Some(InvalidTimeline::Unanchored));
}

#[test]
fn frames_must_increase() {
    let same = Animated::builder()
        .keyframe(KeyframeTiming::Abs(7), Easing::Linear, Scalar(1.0))
        .keyframe(KeyframeTiming::Abs(7), Easing::Linear, Scalar(2.0))
        .build();
    assert_eq!(same.err(), Some(InvalidTimeline::NotIncreasing { index: 1 }));
    let back = Animated::builder()
        .keyframe(KeyframeTiming::Abs(7), Easing::Linear, Scalar(1.0))
        .keyframe(KeyframeTiming::Rel(3), Easing::Linear, Scalar(2.0))
        .keyframe(KeyframeTiming::Abs(9), Easing::Linear, Scalar(3.0))
        .build();
    assert_eq!(back.err(), Some(InvalidTimeline::NotIncreasing { index: 2 }));
    let still = Animated::builder()
        .keyframe(KeyframeTiming::Abs(7), Easing::Linear, Scalar(1.0))
        .keyframe(KeyframeTiming::Rel(0), Easing::Linear, Scalar(2.0))
        .build();
    assert_eq!(still.err(), Some(InvalidTimeline::NotIncreasing { index: 1 }));
    let no_hold = Animated::builder()
        .keyframe(KeyframeTiming::Abs(7), Easing::Linear, Scalar(1.0))
        .hold(0)
        .build();
    assert_eq!(no_hold.err(), Some(InvalidTimeline::NotIncreasing { index: 1 }));
}

#[test]
fn frames_must_be_countable() {
    let far = Animated::builder()
        .keyframe(KeyframeTiming::Abs(u64::MAX - 1), Easing::Linear, Scalar(1.0))
        .keyframe(KeyframeTiming::Rel(2), Easing::Linear, Scalar(2.0))
        .build();
    assert_eq!(far.err(), Some(InvalidTimeline::OutOfRange { index: 1 }));
    let held = Animated::builder()
        .keyframe(KeyframeTiming::Abs(u64::MAX), Easing::Linear, Scalar(1.0))
        .hold(1)
        .build();
    assert_eq!(held.err(), Some(InvalidTimeline::OutOfRange { index: 1 }));
    let fits = Animated::builder()
        .keyframe(KeyframeTiming::Abs(u64::MAX - 1), Easing::Linear, Scalar(1.0))
        .keyframe(KeyframeTiming::Rel(1), Easing::Linear, Scalar(2.0))
        .build()
        .unwrap();
    assert_eq!(fits.keyframes()[1].frame, u64::MAX);
}

#[test]
fn the_first_bad_step_is_reported() {
    let built = Animated::builder()
        .keyframe(KeyframeTiming::Abs(5), Easing::Linear, Scalar(1.0))
        .keyframe(KeyframeTiming::Abs(5), Easing::Linear, Scalar(2.0))
        .keyframe(KeyframeTiming::Rel(0), Easing::Linear, Scalar(3.0))
        .keyframe(KeyframeTiming::Abs(u64::MAX), Easing::Linear, Scalar(4.0))
        .hold(1)
        .build();
    assert_eq!(built.err(), Some(InvalidTimeline::NotIncreasing { index: 1 }));
}

#[test]
fn first_keyframe_may_be_at_any_frame() {
    let timeline = Animated::builder()
        .keyframe(KeyframeTiming::Abs(0), Easing::Linear, Scalar(1.0))
        .build()
        .unwrap();
    assert_eq!(timeline.keyframes()[0].frame, 0);
    let late = Animated::builder()
        .keyframe(KeyframeTiming::Abs(u64::MAX), Easing::Linear, Scalar(1.0))
        .build()
        .unwrap();
    assert_eq!(late.evaluate(0), Scalar(1.0));
}

/// A value whose blend must never be asked for.
#[derive(Clone, Copy, Debug, PartialEq)]
struct Exact(u32);

impl Interpolate for Exact {
    fn lerp(&self, _to: &Self, progress: Progress) -> Self {
        panic!("blended at {:?}", progress)
    }
}

#[test]
fn every_easing_starts_and_arrives_exactly() {
    let easings = [
        Easing::Linear,
        Easing::InQuadratic,
        Easing::OutQuadratic,
        Easing::InOutQuadratic,
        Easing::InCubic,
        Easing::OutCubic,
        Easing::InOutCubic,
        Easing::InQuartic,
        Easing::OutQuartic,
        Easing::InOutQuartic,
        Easing::InQuintic,
        Easing::OutQuintic,
        Easing::InOutQuintic,
        Easing::InExponential,
        Easing::OutExponential,
        Easing::InOutExponential,
        Easing::InBack,
        Easing::OutBack,
        Easing::InOutBack,
    ];
    for easing in easings {
        let timeline = Animated::builder()
            .keyframe(KeyframeTiming::Abs(10), Easing::Linear, Exact(1))
            .keyframe(KeyframeTiming::Rel(10), easing, Exact(2))
            .keyframe(KeyframeTiming::Rel(10), easing, Exact(3))
            .build()
            .unwrap();
        assert_eq!(timeline.evaluate(10), Exact(1));
        assert_eq!(timeline.evaluate(20), Exact(2));
        assert_eq!(timeline.evaluate(30), Exact(3));
        assert_eq!(
            timeline.locate(25),
            Position::Between { from: 1, progress: Progress { elapsed: 5, span: 10, easing } }
        );
    }
}

#[test]
fn held_segments_are_never_blended() {
    let timeline = Animated::builder()
        .keyframe(KeyframeTiming::Abs(0), Easing::InBack, Exact(7))
        .hold(100)
        .hold(50)
        .build()
        .unwrap();
    for frame in 0..200 {
        assert_eq!(timeline.evaluate(frame), Exact(7));
    }
    assert_eq!(timeline.keyframes()[2].frame, 150);
}
