use vide::prelude::{
    Abs, Animated, Clip, ClipEnd, Easing, Instance, Interpolate, Progress, Rect, Rel, Video,
    VideoSettings,
};

#[derive(Clone, Copy, Debug, PartialEq)]
struct Gray(f32);

impl Interpolate for Gray {
    fn lerp(&self, to: &Self, progress: Progress) -> Self {
        Gray(self.0 + (to.0 - self.0) * (progress.elapsed as f32 / progress.span as f32))
    }
}

#[test]
fn a_video_is_described_with_the_prelude() {
    let fade = Animated::builder()
        .keyframe(Abs(0), Easing::Linear, Gray(0.0))
        .keyframe(Rel(18), Easing::Linear, Gray(1.0))
        .hold(18)
        .keyframe(Rel(18), Easing::Linear, Gray(0.5))
        .build()
        .unwrap();
    let rect: Rect<Gray, Gray, Gray> = Rect::builder()
        .color(fade)
        .timing(60, ClipEnd::At(300))
        .build(Instance { position: Gray(0.0), size: Gray(1.0), color: Gray(1.0), radius: Gray(0.0) });
    assert_eq!(rect.start(), 60);
    let mut video = Video::new(VideoSettings { total_frames: 300, resolution: (1920, 1080) });
    video.push_clip(rect);
    assert_eq!(video.dispatch(59), vec![]);
    let shown = |frame: u64| video.dispatch(frame).remove(0).items.remove(0).color;
    assert_eq!(shown(60), Gray(0.0));
    assert_eq!(shown(69), Gray(0.5));
    assert_eq!(shown(78), Gray(1.0));
    assert_eq!(shown(90), Gray(1.0));
    assert_eq!(shown(96), Gray(1.0));
    assert_eq!(shown(105), Gray(0.75));
    assert_eq!(shown(114), Gray(0.5));
    assert_eq!(shown(299), Gray(0.5));
    assert_eq!(video.dispatch(300), vec![]);
}
