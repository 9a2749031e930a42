//! Keyframe animation and frame scheduling for programmatic video.
//!
//! A video is a set of clips. Each property of a clip is animated by a
//! timeline of keyframes ([`animation::Animated`]), assembled by a builder
//! ([`builder::AnimatedBuilder`]) from keyframes at absolute or relative
//! frames. A clip is shown during a span of frames ([`clip::Timing`]); for
//! every frame the video says which clips are shown, evaluates them at the
//! frame counted from their own start and batches the results by shape
//! ([`video::Video::dispatch`]). An export walks through the frames in order
//! ([`export::step`]).
//!
//! All time is counted in whole frames, never in seconds, so that every
//! evaluation is reproducible. The values of the properties are left to the
//! caller: the crate is generic in them and asks only that they can be
//! blended ([`animation::Interpolate`]).

pub mod easing;
pub mod animation;
pub mod builder;
pub mod clip;
pub mod video;
pub mod render;
pub mod export;
pub mod output;
pub mod prelude;
