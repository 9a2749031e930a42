//! Clips: when they are on screen, and what they show at a frame.

use vstd::prelude::*;
use crate::animation::{Animated, Interpolate};

verus! {

/// The frame at which a clip leaves the screen.
#[derive(Clone, Copy, Debug, PartialEq, Eq, Structural)]
pub enum ClipEnd {
    /// The clip is shown up to, but not at, this frame.
    At(u64),
    /// The clip is shown until the video ends.
    Unbounded,
}

/// The span of frames during which a clip is shown.
#[derive(Clone, Copy, Debug, PartialEq, Eq, Structural)]
pub struct Timing {
    pub start: u64,
    pub end: ClipEnd,
}

impl Timing {
    /// The end of the span in a video of `total_frames` frames.
    pub open spec fn resolved_end_in(self, total_frames: u64) -> u64 {
        match self.end {
            ClipEnd::At(end) => end,
            ClipEnd::Unbounded => total_frames,
        }
    }

    /// The clip is shown at `frame`: not before its start, and before its end
    /// if it has one.
    pub open spec fn active_at(self, frame: u64) -> bool {
        &&& self.start <= frame
        &&& match self.end {
            ClipEnd::At(end) => frame < end,
            ClipEnd::Unbounded => true,
        }
    }

    /// The span does not end before it starts in a video of `total_frames`
    /// frames.
    pub open spec fn fits(self, total_frames: u64) -> bool {
        self.start <= self.resolved_end_in(total_frames)
    }

    /// The end of the span in a video of `total_frames` frames.
    pub fn resolved_end(&self, total_frames: u64) -> (end: u64)
        ensures
            end == self.resolved_end_in(total_frames),
    {
        match self.end {
            ClipEnd::At(end) => end,
            ClipEnd::Unbounded => total_frames,
        }
    }

    /// Whether the clip is shown at `frame`.
    pub fn is_active(&self, frame: u64) -> (active: bool)
        ensures
            active == self.active_at(frame),
    {
        if frame < self.start {
            return false;
        }
        match self.end {
            ClipEnd::At(end) => frame < end,
            ClipEnd::Unbounded => true,
        }
    }

    /// The frame of the clip's own timelines that is shown at `frame` of the
    /// video: a clip is animated from its own start.
    pub fn local_frame(&self, frame: u64) -> (local: u64)
        requires
            self.start <= frame,
        ensures
            local == frame - self.start,
    {
        frame - self.start
    }

    /// Whether the span does not end before it starts.
    pub fn is_valid(&self, total_frames: u64) -> (valid: bool)
        ensures
            valid == self.fits(total_frames),
    {
        self.start <= self.resolved_end(total_frames)
    }
}

/// The geometry and the shader that a clip is drawn with, each named by its
/// number in the renderer. Clips of one shape are drawn together.
#[derive(Clone, Copy, Debug, PartialEq, Eq, Structural)]
pub struct Shape {
    pub geometry: u32,
    pub shader: u32,
}

impl Shape {
    /// The unit quad with the rectangle shader.
    pub fn unit_quad() -> (shape: Shape)
        ensures
            shape == (Shape { geometry: 0, shader: 0 }),
    {
        Shape { geometry: 0, shader: 0 }
    }
}

/// What a scheduled element of a video can do.
pub trait Clip {
    /// What the renderer draws for the clip at one frame.
    type Instance;

    /// When the clip is shown.
    spec fn timing(&self) -> Timing;

    /// What the clip is drawn with.
    spec fn shape_of(&self) -> Shape;

    /// `instance` is what the clip may show at `local_frame` of its own
    /// timelines.
    spec fn shows(&self, local_frame: u64, instance: Self::Instance) -> bool;

    /// The first frame at which the clip is shown.
    fn start(&self) -> (start: u64)
        ensures
            start == self.timing().start,
    ;

    /// The frame at which the clip leaves a video that ends at `video_end`.
    fn end(&self, video_end: u64) -> (end: u64)
        ensures
            end == self.timing().resolved_end_in(video_end),
    ;

    /// Whether the clip is shown at `frame`.
    fn in_time_frame(&self, frame: u64) -> (active: bool)
        ensures
            active == self.timing().active_at(frame),
    ;

    /// What the clip is drawn with.
    fn shape(&self) -> (shape: Shape)
        ensures
            shape == self.shape_of(),
    ;

    /// What the clip shows at `local_frame` of its own timelines.
    fn instance(&self, local_frame: u64) -> (instance: Self::Instance)
        ensures
            self.shows(local_frame, instance),
    ;
}

/// The evaluated state of a rectangle at one frame.
#[derive(Debug, PartialEq)]
pub struct Instance<P, C, S> {
    pub position: P,
    pub size: P,
    pub color: C,
    pub radius: S,
}

/// A rectangle whose position, size, colour and corner radius are animated.
pub struct Rect<P, C, S> {
    pub position: Animated<P>,
    pub size: Animated<P>,
    pub color: Animated<C>,
    pub radius: Animated<S>,
    pub timing: Timing,
    pub shape: Shape,
}

impl<P, C, S> Rect<P, C, S> {
    /// A builder on which nothing is set: the rectangle is shown from frame 0
    /// until the video ends, as a unit quad.
    pub fn builder() -> (builder: RectBuilder<P, C, S>)
        ensures
            builder.position is None,
            builder.size is None,
            builder.color is None,
            builder.radius is None,
            builder.timing == (Timing { start: 0, end: ClipEnd::Unbounded }),
            builder.shape == (Shape { geometry: 0, shader: 0 }),
    {
        RectBuilder::default()
    }
}

impl<P: Interpolate + Copy, C: Interpolate + Copy, S: Interpolate + Copy> Clip for Rect<P, C, S> {
    type Instance = Instance<P, C, S>;

    open spec fn timing(&self) -> Timing {
        self.timing
    }

    open spec fn shape_of(&self) -> Shape {
        self.shape
    }

    /// Each property of the instance is a value of its timeline at the frame.
    open spec fn shows(&self, local_frame: u64, instance: Instance<P, C, S>) -> bool {
        &&& self.position.evaluates_to(local_frame, instance.position)
        &&& self.size.evaluates_to(local_frame, instance.size)
        &&& self.color.evaluates_to(local_frame, instance.color)
        &&& self.radius.evaluates_to(local_frame, instance.radius)
    }

    fn start(&self) -> (start: u64) {
        self.timing.start
    }

    fn end(&self, video_end: u64) -> (end: u64) {
        self.timing.resolved_end(video_end)
    }

    fn in_time_frame(&self, frame: u64) -> (active: bool) {
        self.timing.is_active(frame)
    }

    fn shape(&self) -> (shape: Shape) {
        self.shape
    }

    fn instance(&self, local_frame: u64) -> (instance: Instance<P, C, S>) {
        Instance {
            position: self.position.evaluate(local_frame),
            size: self.size.evaluate(local_frame),
            color: self.color.evaluate(local_frame),
            radius: self.radius.evaluate(local_frame),
        }
    }
}

/// Collects the properties of a rectangle.
pub struct RectBuilder<P, C, S> {
    pub position: Option<Animated<P>>,
    pub size: Option<Animated<P>>,
    pub color: Option<Animated<C>>,
    pub radius: Option<Animated<S>>,
    pub timing: Timing,
    pub shape: Shape,
}

impl<P, C, S> Default for RectBuilder<P, C, S> {
    fn default() -> (builder: Self)
        ensures
            builder.position is None,
            builder.size is None,
            builder.color is None,
            builder.radius is None,
            builder.timing == (Timing { start: 0, end: ClipEnd::Unbounded }),
            builder.shape == (Shape { geometry: 0, shader: 0 }),
    {
        RectBuilder {
            position: None,
            size: None,
            color: None,
            radius: None,
            timing: Timing { start: 0, end: ClipEnd::Unbounded },
            shape: Shape::unit_quad(),
        }
    }
}

/// The timeline of a property: the one that was set, or else the constant
/// timeline of the fallback value.
pub open spec fn chosen<T>(set: Option<Animated<T>>, fallback: T, timeline: Animated<T>) -> bool {
    match set {
        Some(animated) => timeline == animated,
        None => timeline@ == Animated::<T>::constant_keyframes(fallback),
    }
}

impl<P, C, S> RectBuilder<P, C, S> {
    /// Sets the timeline of the position.
    pub fn position(self, position: Animated<P>) -> (r: Self)
        ensures
            r == (RectBuilder { position: Some(position), ..self }),
    {
        RectBuilder { position: Some(position), ..self }
    }

    /// Sets the timeline of the size.
    pub fn size(self, size: Animated<P>) -> (r: Self)
        ensures
            r == (RectBuilder { size: Some(size), ..self }),
    {
        RectBuilder { size: Some(size), ..self }
    }

    /// Sets the timeline of the colour.
    pub fn color(self, color: Animated<C>) -> (r: Self)
        ensures
            r == (RectBuilder { color: Some(color), ..self }),
    {
        RectBuilder { color: Some(color), ..self }
    }

    /// Sets the timeline of the corner radius.
    pub fn rounded(self, radius: Animated<S>) -> (r: Self)
        ensures
            r == (RectBuilder { radius: Some(radius), ..self }),
    {
        RectBuilder { radius: Some(radius), ..self }
    }

    /// Sets the span of frames during which the rectangle is shown.
    pub fn timing(self, start: u64, end: ClipEnd) -> (r: Self)
        ensures
            r == (RectBuilder { timing: Timing { start, end }, ..self }),
    {
        RectBuilder { timing: Timing { start, end }, ..self }
    }

    /// Sets what the rectangle is drawn with.
    pub fn shape(self, shape: Shape) -> (r: Self)
        ensures
            r == (RectBuilder { shape, ..self }),
    {
        RectBuilder { shape, ..self }
    }

    /// The rectangle with the properties that were set. A property that was
    /// not set stays at the value that `fallback` gives for it.
    pub fn build(self, fallback: Instance<P, C, S>) -> (rect: Rect<P, C, S>)
        ensures
            chosen(self.position, fallback.position, rect.position),
            chosen(self.size, fallback.size, rect.size),
            chosen(self.color, fallback.color, rect.color),
            chosen(self.radius, fallback.radius, rect.radius),
            rect.timing == self.timing,
            rect.shape == self.shape,
    {
        Rect {
            position: Self::or_constant(self.position, fallback.position),
            size: Self::or_constant(self.size, fallback.size),
            color: Self::or_constant(self.color, fallback.color),
            radius: Self::or_constant(self.radius, fallback.radius),
            timing: self.timing,
            shape: self.shape,
        }
    }

    /// The timeline that was set, or the constant timeline of `fallback`.
    fn or_constant<T>(set: Option<Animated<T>>, fallback: T) -> (timeline: Animated<T>)
        ensures
            chosen(set, fallback, timeline),
    {
        match set {
            Some(animated) => animated,
            None => Animated::constant(fallback),
        }
    }
}

} // verus!
