//! The export loop: which call on the renderer or on the frame sink comes
//! next, and how a failure ends the export.

use vstd::prelude::*;
use crate::clip::Clip;
use crate::video::{SchedulingError, Video};

verus! {

/// A call on the frame sink.
#[derive(Clone, Copy, Debug, PartialEq, Eq, Structural)]
pub enum SinkCall {
    Begin,
    PushFrame { frame: u64 },
    End,
}

/// Why an export was given up. What the sink holds by then is incomplete.
#[derive(Clone, Copy, Debug, PartialEq, Eq, Structural)]
pub enum ExportError {
    /// The renderer rejected `frame`.
    RenderSubmission { frame: u64 },
    /// The frame sink failed `call`.
    ExportSink { call: SinkCall },
}

/// How far an export has come. In every phase one step is pending.
#[derive(Clone, Copy, Debug, PartialEq, Eq, Structural)]
pub enum Phase {
    /// The sink is to be opened.
    Beginning,
    /// `frame` is to be rendered.
    Rendering { frame: u64 },
    /// `frame` has been rendered and is to be handed to the sink.
    Pushing { frame: u64 },
    /// All frames are with the sink, which is to be closed.
    Ending,
    /// The export is complete.
    Done,
    /// The export was given up.
    Failed { error: ExportError },
}

/// What the caller of the loop does next.
#[derive(Clone, Copy, Debug, PartialEq, Eq, Structural)]
pub enum Action {
    /// Open the sink with the video's settings.
    Begin,
    /// Render `frame`.
    Render { frame: u64 },
    /// Hand the rendered `frame` to the sink.
    PushFrame { frame: u64, keyframe: bool },
    /// Close the sink.
    End,
    /// Report that the export is complete.
    Finish,
    /// Report `error`; nothing more is rendered or handed to the sink.
    Abort { error: ExportError },
}

/// How the pending step went.
#[derive(Clone, Copy, Debug, PartialEq, Eq, Structural)]
pub enum Outcome {
    Completed,
    Failed,
}

/// The step that is pending in `phase`. Every frame is pushed as a keyframe.
pub open spec fn pending(phase: Phase) -> Action {
    match phase {
        Phase::Beginning => Action::Begin,
        Phase::Rendering { frame } => Action::Render { frame },
        Phase::Pushing { frame } => Action::PushFrame { frame, keyframe: true },
        Phase::Ending => Action::End,
        Phase::Done => Action::Finish,
        Phase::Failed { error } => Action::Abort { error },
    }
}

/// The phase in which frame `frame` is due, in an export of `total_frames`
/// frames: it is rendered if there is such a frame, else the sink is closed.
pub open spec fn due(total_frames: u64, frame: int) -> Phase {
    if frame < total_frames {
        Phase::Rendering { frame: frame as u64 }
    } else {
        Phase::Ending
    }
}

/// The phase after the step pending in `phase` went as `outcome` says.
///
/// Frames are rendered and pushed one at a time, in increasing order. A
/// failure ends the export for good; so does its completion.
pub open spec fn next(total_frames: u64, phase: Phase, outcome: Outcome) -> Phase {
    match (phase, outcome) {
        (Phase::Beginning, Outcome::Completed) => due(total_frames, 0),
        (Phase::Beginning, Outcome::Failed) => Phase::Failed {
            error: ExportError::ExportSink { call: SinkCall::Begin },
        },
        (Phase::Rendering { frame }, Outcome::Completed) => Phase::Pushing { frame },
        (Phase::Rendering { frame }, Outcome::Failed) => Phase::Failed {
            error: ExportError::RenderSubmission { frame },
        },
        (Phase::Pushing { frame }, Outcome::Completed) => due(total_frames, frame + 1),
        (Phase::Pushing { frame }, Outcome::Failed) => Phase::Failed {
            error: ExportError::ExportSink { call: SinkCall::PushFrame { frame } },
        },
        (Phase::Ending, Outcome::Completed) => Phase::Done,
        (Phase::Ending, Outcome::Failed) => Phase::Failed {
            error: ExportError::ExportSink { call: SinkCall::End },
        },
        (Phase::Done, _) => Phase::Done,
        (Phase::Failed { error }, _) => Phase::Failed { error },
    }
}

/// The phase after `steps` steps of an export in which nothing fails.
pub open spec fn run(total_frames: u64, steps: nat) -> Phase
    decreases steps,
{
    if steps == 0 {
        Phase::Beginning
    } else {
        next(total_frames, run(total_frames, (steps - 1) as nat), Outcome::Completed)
    }
}

/// The first step of an export: the sink is opened.
pub fn start() -> (r: (Phase, Action))
    ensures
        r.0 == Phase::Beginning,
        r.1 == pending(r.0),
{
    (Phase::Beginning, Action::Begin)
}

/// The step that is pending in `phase`.
pub fn action(phase: Phase) -> (action: Action)
    ensures
        action == pending(phase),
{
    match phase {
        Phase::Beginning => Action::Begin,
        Phase::Rendering { frame } => Action::Render { frame },
        Phase::Pushing { frame } => Action::PushFrame { frame, keyframe: true },
        Phase::Ending => Action::End,
        Phase::Done => Action::Finish,
        Phase::Failed { error } => Action::Abort { error },
    }
}

/// The phase after the step pending in `phase` went as `outcome` says.
fn advance(total_frames: u64, phase: Phase, outcome: Outcome) -> (r: Phase)
    ensures
        r == next(total_frames, phase, outcome),
{
    match phase {
        Phase::Beginning => match outcome {
            Outcome::Completed => frame_due(total_frames, 0),
            Outcome::Failed => Phase::Failed {
                error: ExportError::ExportSink { call: SinkCall::Begin },
            },
        },
        Phase::Rendering { frame } => match outcome {
            Outcome::Completed => Phase::Pushing { frame },
            Outcome::Failed => Phase::Failed { error: ExportError::RenderSubmission { frame } },
        },
        Phase::Pushing { frame } => match outcome {
            Outcome::Completed => {
                if frame < total_frames {
                    frame_due(total_frames, frame + 1)
                } else {
                    Phase::Ending
                }
            },
            Outcome::Failed => Phase::Failed {
                error: ExportError::ExportSink { call: SinkCall::PushFrame { frame } },
            },
        },
        Phase::Ending => match outcome {
            Outcome::Completed => Phase::Done,
            Outcome::Failed => Phase::Failed {
                error: ExportError::ExportSink { call: SinkCall::End },
            },
        },
        Phase::Done => Phase::Done,
        Phase::Failed { error } => Phase::Failed { error },
    }
}

/// The phase in which `frame` is due.
fn frame_due(total_frames: u64, frame: u64) -> (r: Phase)
    ensures
        r == due(total_frames, frame as int),
{
    if frame < total_frames {
        Phase::Rendering { frame }
    } else {
        Phase::Ending
    }
}

/// One step of the export loop: from the phase and the outcome of its pending
/// step to the next phase and the step that is pending then.
pub fn step(total_frames: u64, phase: Phase, outcome: Outcome) -> (r: (Phase, Action))
    ensures
        r.0 == next(total_frames, phase, outcome),
        r.1 == pending(r.0),
{
    let after = advance(total_frames, phase, outcome);
    (after, action(after))
}

impl<K: Clip> Video<K> {
    /// Begins an export of the video. A clip that does not fit is reported
    /// before anything is asked of the renderer or of the sink; else the
    /// export starts by opening the sink.
    pub fn export(&self) -> (r: Result<(Phase, Action), SchedulingError>)
        ensures
            match r {
                Ok(first) => {
                    &&& Self::fit_before(self@, self@.len() as int, self.settings.total_frames)
                    &&& first == (Phase::Beginning, Action::Begin)
                },
                Err(error) => Self::first_misfit(self@, self.settings.total_frames, error),
            },
    {
        match self.check() {
            Ok(()) => Ok(start()),
            Err(error) => Err(error),
        }
    }
}

/// While nothing fails, an export opens the sink, then renders and pushes
/// frame after frame, each of the video's frames once and in order, then
/// closes the sink, and then is done for good.
pub proof fn law_run(total_frames: u64, steps: nat)
    ensures
        steps == 0 ==> run(total_frames, steps) == Phase::Beginning,
        0 < steps <= 2 * total_frames && steps % 2 == 1 ==> run(total_frames, steps)
            == (Phase::Rendering { frame: ((steps - 1) / 2) as u64 }),
        0 < steps <= 2 * total_frames && steps % 2 == 0 ==> run(total_frames, steps)
            == (Phase::Pushing { frame: ((steps - 2) / 2) as u64 }),
        steps == 2 * total_frames + 1 ==> run(total_frames, steps) == Phase::Ending,
        steps > 2 * total_frames + 1 ==> run(total_frames, steps) == Phase::Done,
    decreases steps,
{
    if steps > 0 {
        law_run(total_frames, (steps - 1) as nat);
    }
}

/// The calls of an export in which nothing fails: `Begin` comes first, frame
/// `frame` is rendered at step `2 * frame + 1` and pushed at the step after,
/// and `End` follows the last push.
pub proof fn law_calls_in_order(total_frames: u64, frame: u64)
    requires
        frame < total_frames,
    ensures
        pending(run(total_frames, 0)) == Action::Begin,
        pending(run(total_frames, (2 * frame + 1) as nat)) == (Action::Render { frame }),
        pending(run(total_frames, (2 * frame + 2) as nat)) == (Action::PushFrame {
            frame,
            keyframe: true,
        }),
        pending(run(total_frames, (2 * total_frames + 1) as nat)) == Action::End,
        pending(run(total_frames, (2 * total_frames + 2) as nat)) == Action::Finish,
{
    law_run(total_frames, 0);
    law_run(total_frames, (2 * frame + 1) as nat);
    law_run(total_frames, (2 * frame + 2) as nat);
    law_run(total_frames, (2 * total_frames + 1) as nat);
    law_run(total_frames, (2 * total_frames + 2) as nat);
}

/// An export that was given up stays given up, with the error it had, and an
/// export that is done stays done: nothing more is asked of the renderer or
/// of the sink.
pub proof fn law_ended_for_good(total_frames: u64, phase: Phase, outcome: Outcome)
    requires
        phase is Failed || phase is Done,
    ensures
        next(total_frames, phase, outcome) == phase,
        pending(phase) is Finish || pending(phase) is Abort,
{
}

/// A step that fails ends the export with the error of that step.
pub proof fn law_failure_ends(total_frames: u64, phase: Phase)
    requires
        !(phase is Failed),
        !(phase is Done),
    ensures
        next(total_frames, phase, Outcome::Failed) is Failed,
        phase is Rendering ==> next(total_frames, phase, Outcome::Failed)->error == (
        ExportError::RenderSubmission { frame: phase->Rendering_frame }),
        !(phase is Rendering) ==> next(total_frames, phase, Outcome::Failed)->error
            is ExportSink,
{
}

} // verus!
