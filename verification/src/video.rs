//! A video: its settings and its clips.

use std::collections::VecDeque;
use vstd::prelude::*;
use crate::clip::Clip;

verus! {

/// The size of a video in time and space.
#[derive(Clone, Copy, Debug, PartialEq, Eq)]
pub struct VideoSettings {
    /// The number of frames of the video.
    pub total_frames: u64,
    /// Width and height of a frame, in pixels.
    pub resolution: (u32, u32),
}

impl Default for VideoSettings {
    /// Thirty seconds of sixty frames each, in full HD.
    fn default() -> (settings: Self)
        ensures
            settings == (VideoSettings { total_frames: 1800, resolution: (1920u32, 1080u32) }),
    {
        VideoSettings { total_frames: 1800, resolution: (1920, 1080) }
    }
}

/// A clip whose span ends before it starts.
#[derive(Clone, Copy, Debug, PartialEq, Eq, Structural)]
pub struct SchedulingError {
    /// The place of the clip among the clips of the video.
    pub clip: usize,
    pub start: u64,
    /// The end of the clip's span in this video.
    pub end: u64,
}

/// A video owns its clips. The clip that was pushed last comes first.
pub struct Video<K> {
    pub clips: VecDeque<K>,
    pub settings: VideoSettings,
}

impl<K> View for Video<K> {
    type V = Seq<K>;

    /// The clips, in the order in which they are scheduled.
    open spec fn view(&self) -> Seq<K> {
        self.clips@
    }
}

impl<K: Clip> Video<K> {
    /// A video without clips.
    pub fn new(settings: VideoSettings) -> (video: Self)
        ensures
            video@ == Seq::<K>::empty(),
            video.settings == settings,
    {
        Video { clips: VecDeque::new(), settings }
    }

    /// The clips, in the order in which they are scheduled.
    pub fn clips(&self) -> (clips: &VecDeque<K>)
        ensures
            clips@ == self@,
    {
        &self.clips
    }

    /// The clips, to be changed in place.
    pub fn clips_mut(&mut self) -> (clips: &mut VecDeque<K>)
        ensures
            clips@ == old(self)@,
            final(self)@ == final(clips)@,
            final(self).settings == old(self).settings,
    {
        &mut self.clips
    }

    /// Puts a clip in front of the others.
    pub fn push_clip(&mut self, clip: K)
        ensures
            final(self)@ == seq![clip] + old(self)@,
            final(self).settings == old(self).settings,
    {
        self.clips.push_front(clip);
    }

    /// Takes out the clip at `index`; the clips behind it move up.
    pub fn remove_clip(&mut self, index: usize)
        requires
            index < old(self)@.len(),
        ensures
            final(self)@ == old(self)@.remove(index as int),
            final(self).settings == old(self).settings,
    {
        self.clips.remove(index);
    }

    /// The frame that a preview shows after `frame`: a preview plays the
    /// video in a loop.
    pub fn next_preview_frame(&self, frame: u64) -> (next: u64)
        requires
            self.settings.total_frames > 0,
        ensures
            next == (frame + 1) % (self.settings.total_frames as int),
    {
        let total: u64 = self.settings.total_frames;
        proof {
            vstd::arithmetic::div_mod::lemma_add_mod_noop_right(1, frame as int, total as int);
        }
        (frame % total + 1) % total
    }

    /// All clips before the `n`-th fit into a video of `total_frames` frames.
    pub open spec fn fit_before(clips: Seq<K>, n: int, total_frames: u64) -> bool {
        forall|i: int| 0 <= i < n ==> (#[trigger] clips[i]).timing().fits(total_frames)
    }

    /// `error` tells of the first clip that does not fit into a video of
    /// `total_frames` frames.
    pub open spec fn first_misfit(
        clips: Seq<K>,
        total_frames: u64,
        error: SchedulingError,
    ) -> bool {
        &&& error.clip < clips.len()
        &&& Self::fit_before(clips, error.clip as int, total_frames)
        &&& !clips[error.clip as int].timing().fits(total_frames)
        &&& error.start == clips[error.clip as int].timing().start
        &&& error.end == clips[error.clip as int].timing().resolved_end_in(total_frames)
    }

    /// Finds the first clip whose span ends before it starts.
    pub fn check(&self) -> (r: Result<(), SchedulingError>)
        ensures
            match r {
                Ok(()) => Self::fit_before(self@, self@.len() as int, self.settings.total_frames),
                Err(error) => Self::first_misfit(self@, self.settings.total_frames, error),
            },
    {
        let total: u64 = self.settings.total_frames;
        let n: usize = self.clips.len();
        let mut i: usize = 0;
        while i < n
            invariant
                i <= n,
                n == self.clips@.len(),
                total == self.settings.total_frames,
                Self::fit_before(self.clips@, i as int, total),
            decreases n - i,
        {
            let clip = &self.clips[i];
            let start: u64 = clip.start();
            let end: u64 = clip.end(total);
            if end < start {
                return Err(SchedulingError { clip: i, start, end });
            }
            i += 1;
        }
        Ok(())
    }
}

} // verus!
