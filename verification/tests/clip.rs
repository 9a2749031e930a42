use vide::animation::{Animated, Interpolate};
use vide::builder::KeyframeTiming;
use vide::clip::{Clip, ClipEnd, Instance, Rect, RectBuilder, Shape, Timing};
use vide::easing::{Easing, Progress};

#[derive(Clone, Copy, Debug, PartialEq)]
struct Pair(f32, f32);

#[derive(Clone, Copy, Debug, PartialEq)]
struct Rgba([f32; 4]);

#[derive(Clone, Copy, Debug, PartialEq)]
struct Radius(f32);

fn fraction(progress: Progress) -> f32 {
    assert_eq!(progress.easing, Easing::Linear);
    progress.elapsed as f32 / progress.span as f32
}

impl Interpolate for Pair {
    fn lerp(&self, to: &Self, progress: Progress) -> Self {
        let t = fraction(progress);
        Pair(self.0 + (to.0 - self.0) * t, self.1 + (to.1 - self.1) * t)
    }
}

impl Interpolate for Rgba {
    fn lerp(&self, to: &Self, progress: Progress) -> Self {
        let t = fraction(progress);
        let mut out = [0.0; 4];
        for channel in 0..4 {
            out[channel] = self.0[channel] + (to.0[channel] - self.0[channel]) * t;
        }
        Rgba(out)
    }
}

impl Interpolate for Radius {
    fn lerp(&self, to: &Self, progress: Progress) -> Self {
        Radius(self.0 + (to.0 - self.0) * fraction(progress))
    }
}

fn fallback() -> Instance<Pair, Rgba, Radius> {
    Instance {
        position: Pair(0.0, 0.0),
        size: Pair(100.0, 100.0),
        color: Rgba([1.0, 1.0, 1.0, 1.0]),
        radius: Radius(0.0),
    }
}

#[test]
fn open_ended_clip_starts_at_its_start() {
    let timing = Timing { start: 60, end: ClipEnd::Unbounded };
    assert!(!timing.is_active(59));
    assert!(timing.is_active(60));
    assert_eq!(timing.local_frame(60), 0);
    assert_eq!(timing.local_frame(120), 60);
}

#[test]
fn open_ended_clip_stays_active() {
    let timing = Timing { start: 60, end: ClipEnd::Unbounded };
    assert!(timing.is_active(61));
    assert!(timing.is_active(299));
    assert!(timing.is_active(300));
    assert!(timing.is_active(u64::MAX));
    assert!(!timing.is_active(0));
}

#[test]
fn bounded_clip_ends_before_its_end() {
    let timing = Timing { start: 0, end: ClipEnd::At(180) };
    assert!(timing.is_active(0));
    assert!(timing.is_active(179));
    assert!(!timing.is_active(180));
    assert!(!timing.is_active(200));
    let empty = Timing { start: 5, end: ClipEnd::At(5) };
    assert!(!empty.is_active(4));
    assert!(!empty.is_active(5));
}

#[test]
fn end_resolves_against_the_video() {
    let open = Timing { start: 60, end: ClipEnd::Unbounded };
    assert_eq!(open.resolved_end(300), 300);
    assert_eq!(open.resolved_end(0), 0);
    let bounded = Timing { start: 0, end: ClipEnd::At(180) };
    assert_eq!(bounded.resolved_end(300), 180);
    assert_eq!(bounded.resolved_end(100), 180);
}

#[test]
fn span_may_not_end_before_it_starts() {
    assert!(Timing { start: 10, end: ClipEnd::At(10) }.is_valid(300));
    assert!(Timing { start: 10, end: ClipEnd::At(11) }.is_valid(5));
    assert!(!Timing { start: 10, end: ClipEnd::At(9) }.is_valid(300));
    assert!(Timing { start: 300, end: ClipEnd::Unbounded }.is_valid(300));
    assert!(!Timing { start: 301, end: ClipEnd::Unbounded }.is_valid(300));
}

#[test]
fn unit_quad_is_the_first_shape() {
    assert_eq!(Shape::unit_quad(), Shape { geometry: 0, shader: 0 });
}

#[test]
fn rect_builder_starts_empty() {
    let builder: RectBuilder<Pair, Rgba, Radius> = Rect::builder();
    assert!(builder.position.is_none());
    assert!(builder.size.is_none());
    assert!(builder.color.is_none());
    assert!(builder.radius.is_none());
    assert_eq!(builder.timing, Timing { start: 0, end: ClipEnd::Unbounded });
    assert_eq!(builder.shape, Shape::unit_quad());
    let builder: RectBuilder<Pair, Rgba, Radius> = RectBuilder::default();
    assert!(builder.position.is_none());
    assert_eq!(builder.timing, Timing { start: 0, end: ClipEnd::Unbounded });
}

#[test]
fn rect_without_properties_shows_the_fallback() {
    let rect: Rect<Pair, Rgba, Radius> = Rect::builder().build(fallback());
    assert_eq!(rect.timing, Timing { start: 0, end: ClipEnd::Unbounded });
    assert_eq!(rect.shape, Shape::unit_quad());
    assert_eq!(rect.position.len(), 1);
    for frame in [0, 1, 1000] {
        assert_eq!(rect.instance(frame), fallback());
    }
}

#[test]
fn rect_keeps_what_was_set() {
    let rect = Rect::builder()
        .position(Animated::constant(Pair(-300.0, 0.0)))
        .size(
            Animated::builder()
                .keyframe(KeyframeTiming::Abs(0), Easing::Linear, Pair(0.0, 1080.0))
                .keyframe(KeyframeTiming::Rel(54), Easing::Linear, Pair(1920.0, 1080.0))
                .build()
                .unwrap(),
        )
        .color(Animated::constant(Rgba([0.0, 0.25, 0.5, 1.0])))
        .rounded(Animated::constant(Radius(0.2)))
        .timing(60, ClipEnd::At(300))
        .shape(Shape { geometry: 3, shader: 1 })
        .build(fallback());
    assert_eq!(rect.start(), 60);
    assert_eq!(rect.end(1000), 300);
    assert_eq!(rect.shape(), Shape { geometry: 3, shader: 1 });
    assert!(!rect.in_time_frame(59));
    assert!(rect.in_time_frame(60));
    assert!(rect.in_time_frame(299));
    assert!(!rect.in_time_frame(300));
    assert_eq!(rect.size.keyframes()[1].frame, 54);
    assert_eq!(
        rect.instance(27),
        Instance {
            position: Pair(-300.0, 0.0),
            size: Pair(960.0, 1080.0),
            color: Rgba([0.0, 0.25, 0.5, 1.0]),
            radius: Radius(0.2),
        }
    );
    assert_eq!(rect.instance(54).size, Pair(1920.0, 1080.0));
}

#[test]
fn rect_builder_sets_one_property_at_a_time() {
    let builder: RectBuilder<Pair, Rgba, Radius> =
        Rect::builder().color(Animated::constant(Rgba([1.0, 0.0, 0.0, 1.0])));
    assert!(builder.position.is_none());
    assert!(builder.size.is_none());
    assert!(builder.radius.is_none());
    assert_eq!(builder.color.as_ref().unwrap().keyframes()[0].value, Rgba([1.0, 0.0, 0.0, 1.0]));
    let builder = builder.timing(7, ClipEnd::At(9));
    assert_eq!(builder.timing, Timing { start: 7, end: ClipEnd::At(9) });
    assert!(builder.color.is_some());
    let rect = builder.build(fallback());
    assert_eq!(rect.instance(0).color, Rgba([1.0, 0.0, 0.0, 1.0]));
    assert_eq!(rect.instance(0).size, Pair(100.0, 100.0));
}

#[test]
fn open_rect_ends_with_the_video() {
    let rect: Rect<Pair, Rgba, Radius> = Rect::builder().timing(60, ClipEnd::Unbounded).build(fallback());
    assert_eq!(rect.end(300), 300);
    assert_eq!(rect.end(90), 90);
    assert!(rect.in_time_frame(100_000));
}

#[test]
fn colour_blends_every_channel() {
    let color = Animated::builder()
        .keyframe(KeyframeTiming::Abs(0), Easing::Linear, Rgba([0.0, 1.0, 0.5, 0.0]))
        .keyframe(KeyframeTiming::Abs(4), Easing::Linear, Rgba([1.0, 0.0, 0.5, 1.0]))
        .build()
        .unwrap();
    assert_eq!(color.evaluate(1), Rgba([0.25, 0.75, 0.5, 0.25]));
    assert_eq!(color.evaluate(3), Rgba([0.75, 0.25, 0.5, 0.75]));
}
