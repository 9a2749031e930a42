//! What a description of a video needs, in one place.

pub use crate::animation::{Animated, Interpolate, Keyframe, Position};
pub use crate::builder::KeyframeTiming::{Abs, Rel};
pub use crate::builder::{AnimatedBuilder, InvalidTimeline, KeyframeTiming};
pub use crate::clip::{Clip, ClipEnd, Instance, Rect, RectBuilder, Shape, Timing};
pub use crate::easing::{Easing, Progress};
pub use crate::render::{Batch, Draw};
pub use crate::video::{SchedulingError, Video, VideoSettings};
