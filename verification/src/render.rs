//! What is drawn at a frame: the clips that are shown, batched by shape.

use vstd::prelude::*;
use crate::clip::{Clip, Shape};
use crate::video::Video;

verus! {

/// One clip to draw at one frame.
#[derive(Clone, Copy, Debug, PartialEq, Eq, Structural)]
pub struct Draw {
    /// The place of the clip among the clips of the video.
    pub clip: usize,
    /// The frame of the clip's own timelines.
    pub local_frame: u64,
}

/// What is drawn with one shape in one call.
#[derive(Debug, PartialEq)]
pub struct Batch<I> {
    pub shape: Shape,
    pub items: Vec<I>,
}

/// The draws of one shape.
pub ghost struct Group {
    pub shape: Shape,
    pub draws: Seq<Draw>,
}

/// The draw of clip `i` of a video at `frame`.
pub open spec fn draw_of<K: Clip>(clips: Seq<K>, i: int, frame: u64) -> Draw {
    Draw { clip: i as usize, local_frame: (frame - clips[i].timing().start) as u64 }
}

/// The draws of a frame: one for every clip that is shown at `frame`, in the
/// order of the clips.
pub open spec fn scheduled<K: Clip>(clips: Seq<K>, frame: u64) -> Seq<Draw>
    decreases clips.len(),
{
    if clips.len() == 0 {
        Seq::empty()
    } else {
        let before = scheduled(clips.drop_last(), frame);
        if clips.last().timing().active_at(frame) {
            before.push(draw_of(clips, clips.len() - 1, frame))
        } else {
            before
        }
    }
}

/// The place of the group of `shape`, or the number of groups if there is
/// none.
pub open spec fn slot(groups: Seq<Group>, shape: Shape) -> int
    decreases groups.len(),
{
    if groups.len() == 0 {
        0
    } else if groups.first().shape == shape {
        0
    } else {
        1 + slot(groups.drop_first(), shape)
    }
}

/// The groups after one more draw: it joins the group of its shape, or opens
/// a new group behind the others.
pub open spec fn joined(groups: Seq<Group>, shape: Shape, draw: Draw) -> Seq<Group> {
    let g = slot(groups, shape);
    if g < groups.len() {
        groups.update(g, Group { shape, draws: groups[g].draws.push(draw) })
    } else {
        groups.push(Group { shape, draws: seq![draw] })
    }
}

/// The draws in groups of one shape each. The groups stand in the order in
/// which their shapes first occur, the draws of a group in their own order.
pub open spec fn batched<K: Clip>(clips: Seq<K>, draws: Seq<Draw>) -> Seq<Group>
    decreases draws.len(),
{
    if draws.len() == 0 {
        Seq::empty()
    } else {
        joined(batched(clips, draws.drop_last()), shape_in(clips, draws.last()), draws.last())
    }
}

/// The shape that a draw is drawn with.
pub open spec fn shape_in<K: Clip>(clips: Seq<K>, draw: Draw) -> Shape {
    clips[draw.clip as int].shape_of()
}

/// The draws that are drawn with `shape`, in their own order.
pub open spec fn of_shape<K: Clip>(clips: Seq<K>, draws: Seq<Draw>, shape: Shape) -> Seq<Draw>
    decreases draws.len(),
{
    if draws.len() == 0 {
        Seq::empty()
    } else {
        let before = of_shape(clips, draws.drop_last(), shape);
        if shape_in(clips, draws.last()) == shape {
            before.push(draws.last())
        } else {
            before
        }
    }
}

/// The number of draws in all groups together.
pub open spec fn total_draws(groups: Seq<Group>) -> nat
    decreases groups.len(),
{
    if groups.len() == 0 {
        0
    } else {
        total_draws(groups.drop_last()) + groups.last().draws.len()
    }
}

/// The groups that batches of draws stand for.
pub open spec fn groups_of(batches: Seq<Batch<Draw>>) -> Seq<Group> {
    Seq::new(batches.len(), |g: int| group_of(batches[g]))
}

/// The group that a batch of draws stands for.
pub open spec fn group_of(batch: Batch<Draw>) -> Group {
    Group { shape: batch.shape, draws: batch.items@ }
}

/// `batch` holds, for every draw of `group` and in the same order, what the
/// clip of the draw may show at the frame of the draw.
pub open spec fn shown_as<K: Clip>(clips: Seq<K>, group: Group, batch: Batch<K::Instance>) -> bool {
    &&& batch.shape == group.shape
    &&& batch.items@.len() == group.draws.len()
    &&& forall|k: int|
        0 <= k < group.draws.len() ==> clips[group.draws[k].clip as int].shows(
            group.draws[k].local_frame,
            #[trigger] batch.items@[k],
        )
}

/// `batches` is what a video of `clips` hands to the renderer at `frame`: one
/// batch for each group of the frame's draws, in the order of the groups.
pub open spec fn dispatched<K: Clip>(
    clips: Seq<K>,
    frame: u64,
    batches: Seq<Batch<K::Instance>>,
) -> bool {
    let groups = batched(clips, scheduled(clips, frame));
    &&& batches.len() == groups.len()
    &&& forall|g: int|
        0 <= g < groups.len() ==> shown_as(clips, groups[g], #[trigger] batches[g])
}

/// A group's place is where its shape stands first.
pub proof fn law_slot(groups: Seq<Group>, shape: Shape)
    ensures
        0 <= slot(groups, shape) <= groups.len(),
        forall|j: int| 0 <= j < slot(groups, shape) ==> (#[trigger] groups[j]).shape != shape,
        slot(groups, shape) < groups.len() ==> groups[slot(groups, shape)].shape == shape,
    decreases groups.len(),
{
    if groups.len() > 0 && groups.first().shape != shape {
        let rest = groups.drop_first();
        law_slot(rest, shape);
        assert forall|j: int| 0 <= j < slot(groups, shape) implies (#[trigger] groups[j]).shape
            != shape by {
            if j > 0 {
                assert(rest[j - 1] == groups[j]);
            }
        }
    }
}

/// Where a shape stands first is its group's place.
pub proof fn law_slot_found(groups: Seq<Group>, shape: Shape, g: int)
    requires
        0 <= g <= groups.len(),
        forall|j: int| 0 <= j < g ==> (#[trigger] groups[j]).shape != shape,
        g < groups.len() ==> groups[g].shape == shape,
    ensures
        slot(groups, shape) == g,
{
    law_slot(groups, shape);
    let s = slot(groups, shape);
    if s < g {
        assert(groups[s].shape != shape);
    } else if g < s {
        assert(groups[g].shape != shape);
    }
}

/// Batching sorts draws by shape and nothing else: every group holds
/// exactly the draws of its shape, in their own order, and at least one; no
/// two groups have the same shape; and a shape without a group has no draw.
pub proof fn law_batched<K: Clip>(clips: Seq<K>, draws: Seq<Draw>)
    ensures
        forall|g: int|
            0 <= g < batched(clips, draws).len() ==> {
                let group = #[trigger] batched(clips, draws)[g];
                &&& group.draws == of_shape(clips, draws, group.shape)
                &&& group.draws.len() > 0
                &&& slot(batched(clips, draws), group.shape) == g
            },
        forall|shape: Shape|
            #[trigger] slot(batched(clips, draws), shape) == batched(clips, draws).len()
                ==> of_shape(clips, draws, shape).len() == 0,
    decreases draws.len(),
{
    if draws.len() > 0 {
        let front = draws.drop_last();
        let last = draws.last();
        let s0 = shape_in(clips, last);
        let prev = batched(clips, front);
        let groups = batched(clips, draws);
        let g0 = slot(prev, s0);
        law_batched(clips, front);
        law_slot(prev, s0);
        assert(groups.len() >= prev.len());
        assert forall|g: int| 0 <= g < groups.len() implies (#[trigger] groups[g]).shape == (if g
            < prev.len() {
            prev[g].shape
        } else {
            s0
        }) by {}
        assert forall|g: int| 0 <= g < groups.len() implies {
            let group = #[trigger] groups[g];
            &&& group.draws == of_shape(clips, draws, group.shape)
            &&& group.draws.len() > 0
            &&& slot(groups, group.shape) == g
        } by {
            let shape = groups[g].shape;
            if g < prev.len() {
                assert(slot(prev, prev[g].shape) == g);
                law_slot(prev, shape);
                if g != g0 {
                    assert(shape != s0);
                }
            }
            assert forall|j: int| 0 <= j < g implies (#[trigger] groups[j]).shape != shape by {
                if g < prev.len() {
                    assert(prev[j].shape != shape);
                } else {
                    assert(prev[j].shape != s0);
                }
            }
            law_slot_found(groups, shape, g);
        }
        assert forall|shape: Shape| #[trigger]
            slot(groups, shape) == groups.len() implies of_shape(clips, draws, shape).len()
            == 0 by {
            law_slot(groups, shape);
            assert forall|j: int| 0 <= j < prev.len() implies (#[trigger] prev[j]).shape
                != shape by {
                assert(groups[j].shape != shape);
            }
            law_slot_found(prev, shape, prev.len() as int);
            if g0 < prev.len() {
                assert(groups[g0].shape != shape);
            } else {
                assert(groups[prev.len() as int].shape != shape);
            }
        }
    }
}

/// The draws of a shape are among the draws, and are of that shape.
pub proof fn law_of_shape_members<K: Clip>(clips: Seq<K>, draws: Seq<Draw>, shape: Shape)
    ensures
        forall|k: int|
            0 <= k < of_shape(clips, draws, shape).len() ==> {
                let d = #[trigger] of_shape(clips, draws, shape)[k];
                draws.contains(d) && shape_in(clips, d) == shape
            },
    decreases draws.len(),
{
    if draws.len() > 0 {
        let front = draws.drop_last();
        law_of_shape_members(clips, front, shape);
        let picked = of_shape(clips, draws, shape);
        let before = of_shape(clips, front, shape);
        assert forall|k: int| 0 <= k < picked.len() implies {
            let d = #[trigger] picked[k];
            draws.contains(d) && shape_in(clips, d) == shape
        } by {
            if k < before.len() {
                let d = before[k];
                assert(front.contains(d));
                let at = choose|at: int| 0 <= at < front.len() && front[at] == d;
                assert(draws[at] == d);
            } else {
                assert(draws[draws.len() - 1] == picked[k]);
            }
        }
    }
}

/// A draw of a shape is among the draws of that shape.
pub proof fn law_of_shape_keeps<K: Clip>(clips: Seq<K>, draws: Seq<Draw>, k: int)
    requires
        0 <= k < draws.len(),
    ensures
        of_shape(clips, draws, shape_in(clips, draws[k])).contains(draws[k]),
    decreases draws.len(),
{
    let shape = shape_in(clips, draws[k]);
    let picked = of_shape(clips, draws, shape);
    let front = draws.drop_last();
    let before = of_shape(clips, front, shape);
    if k == draws.len() - 1 {
        assert(picked[picked.len() - 1] == draws[k]);
    } else {
        law_of_shape_keeps(clips, front, k);
        assert(front[k] == draws[k]);
        let at = choose|at: int| 0 <= at < before.len() && before[at] == draws[k];
        assert(picked[at] == draws[k]);
    }
}

/// Every draw is in the batch of its shape.
pub proof fn law_every_draw_is_batched<K: Clip>(clips: Seq<K>, draws: Seq<Draw>, k: int)
    requires
        0 <= k < draws.len(),
    ensures
        ({
            let groups = batched(clips, draws);
            let g = slot(groups, shape_in(clips, draws[k]));
            &&& 0 <= g < groups.len()
            &&& groups[g].shape == shape_in(clips, draws[k])
            &&& groups[g].draws.contains(draws[k])
        }),
{
    let groups = batched(clips, draws);
    let shape = shape_in(clips, draws[k]);
    law_of_shape_keeps(clips, draws, k);
    law_batched(clips, draws);
    law_slot(groups, shape);
    assert(of_shape(clips, draws, shape).len() > 0);
    let g = slot(groups, shape);
    assert(groups[g].draws == of_shape(clips, draws, groups[g].shape));
}

/// Changing one group changes the number of draws by what the group gains.
proof fn lemma_total_draws_update(groups: Seq<Group>, g: int, group: Group)
    requires
        0 <= g < groups.len(),
    ensures
        total_draws(groups.update(g, group)) == total_draws(groups) - groups[g].draws.len()
            + group.draws.len(),
    decreases groups.len(),
{
    let changed = groups.update(g, group);
    if g == groups.len() - 1 {
        assert(changed.drop_last() =~= groups.drop_last());
    } else {
        lemma_total_draws_update(groups.drop_last(), g, group);
        assert(changed.drop_last() =~= groups.drop_last().update(g, group));
    }
}

/// Batching neither drops nor repeats a draw: the batches hold as many draws
/// as there are.
pub proof fn law_batched_count<K: Clip>(clips: Seq<K>, draws: Seq<Draw>)
    ensures
        total_draws(batched(clips, draws)) == draws.len(),
    decreases draws.len(),
{
    if draws.len() > 0 {
        let prev = batched(clips, draws.drop_last());
        let shape = shape_in(clips, draws.last());
        let g = slot(prev, shape);
        law_batched_count(clips, draws.drop_last());
        law_slot(prev, shape);
        if g < prev.len() {
            lemma_total_draws_update(
                prev,
                g,
                Group { shape, draws: prev[g].draws.push(draws.last()) },
            );
        } else {
            let group = Group { shape, draws: seq![draws.last()] };
            assert(prev.push(group).drop_last() =~= prev);
        }
    }
}

/// Every scheduled draw is of a clip that is shown at the frame, at the frame
/// counted from the clip's start; the draws follow the order of the clips.
pub proof fn law_scheduled_are_active<K: Clip>(clips: Seq<K>, frame: u64)
    requires
        clips.len() <= usize::MAX,
    ensures
        scheduled(clips, frame).len() <= clips.len(),
        forall|k: int|
            0 <= k < scheduled(clips, frame).len() ==> {
                let d = #[trigger] scheduled(clips, frame)[k];
                &&& d.clip < clips.len()
                &&& clips[d.clip as int].timing().active_at(frame)
                &&& d == draw_of(clips, d.clip as int, frame)
            },
        forall|k: int, l: int|
            0 <= k < l < scheduled(clips, frame).len() ==> scheduled(clips, frame)[k].clip
                < scheduled(clips, frame)[l].clip,
    decreases clips.len(),
{
    if clips.len() > 0 {
        let front = clips.drop_last();
        law_scheduled_are_active(front, frame);
        let before = scheduled(front, frame);
        let all = scheduled(clips, frame);
        assert forall|k: int| 0 <= k < all.len() implies {
            let d = #[trigger] all[k];
            &&& d.clip < clips.len()
            &&& clips[d.clip as int].timing().active_at(frame)
            &&& d == draw_of(clips, d.clip as int, frame)
        } by {
            if k < before.len() {
                let d = before[k];
                assert(front[d.clip as int] == clips[d.clip as int]);
            }
        }
        assert forall|k: int, l: int| 0 <= k < l < all.len() implies all[k].clip
            < all[l].clip by {
            if l < before.len() {
                assert(before[k].clip < before[l].clip);
            } else {
                assert(before[k].clip < front.len());
            }
        }
    }
}

/// Every clip that is shown at the frame is scheduled.
pub proof fn law_active_are_scheduled<K: Clip>(clips: Seq<K>, frame: u64, i: int)
    requires
        0 <= i < clips.len(),
        clips[i].timing().active_at(frame),
    ensures
        scheduled(clips, frame).contains(draw_of(clips, i, frame)),
    decreases clips.len(),
{
    let front = clips.drop_last();
    let before = scheduled(front, frame);
    let all = scheduled(clips, frame);
    if i == clips.len() - 1 {
        assert(all[all.len() - 1] == draw_of(clips, i, frame));
    } else {
        law_active_are_scheduled(front, frame, i);
        assert(front[i] == clips[i]);
        let k = choose|k: int| 0 <= k < before.len() && before[k] == draw_of(front, i, frame);
        assert(all[k] == before[k]);
    }
}

/// Every draw of a frame's groups is a draw of a clip of the video.
pub proof fn law_planned_in_range<K: Clip>(clips: Seq<K>, frame: u64)
    requires
        clips.len() <= usize::MAX,
    ensures
        forall|g: int, k: int|
            0 <= g < batched(clips, scheduled(clips, frame)).len() && 0 <= k < batched(
                clips,
                scheduled(clips, frame),
            )[g].draws.len() ==> (#[trigger] batched(
                clips,
                scheduled(clips, frame),
            )[g].draws[k]).clip < clips.len(),
{
    let draws = scheduled(clips, frame);
    let groups = batched(clips, draws);
    law_scheduled_are_active(clips, frame);
    law_batched(clips, draws);
    assert forall|g: int, k: int| 0 <= g < groups.len() && 0 <= k < groups[g].draws.len() implies (
    #[trigger] groups[g].draws[k]).clip < clips.len() by {
        let group = groups[g];
        law_of_shape_members(clips, draws, group.shape);
        let d = of_shape(clips, draws, group.shape)[k];
        assert(draws.contains(d));
        let at = choose|at: int| 0 <= at < draws.len() && draws[at] == d;
        assert(draws[at].clip < clips.len());
    }
}

/// Every clip that is shown at a frame is drawn at that frame: what is
/// dispatched holds, in the batch of the clip's shape, what the clip shows at
/// the frame counted from its start.
pub proof fn law_dispatch_shows_active<K: Clip>(
    clips: Seq<K>,
    frame: u64,
    batches: Seq<Batch<K::Instance>>,
    i: int,
)
    requires
        clips.len() <= usize::MAX,
        dispatched(clips, frame, batches),
        0 <= i < clips.len(),
        clips[i].timing().active_at(frame),
    ensures
        exists|g: int, k: int|
            0 <= g < batches.len() && 0 <= k < batches[g].items@.len() && batches[g].shape
                == clips[i].shape_of() && clips[i].shows(
                (frame - clips[i].timing().start) as u64,
                #[trigger] batches[g].items@[k],
            ),
{
    let draws = scheduled(clips, frame);
    let groups = batched(clips, draws);
    let draw = draw_of(clips, i, frame);
    law_active_are_scheduled(clips, frame, i);
    let at = choose|at: int| 0 <= at < draws.len() && draws[at] == draw;
    law_every_draw_is_batched(clips, draws, at);
    let g = slot(groups, shape_in(clips, draw));
    let k = choose|k: int| 0 <= k < groups[g].draws.len() && groups[g].draws[k] == draw;
    assert(shown_as(clips, groups[g], batches[g]));
    assert(clips[groups[g].draws[k].clip as int].shows(
        groups[g].draws[k].local_frame,
        batches[g].items@[k],
    ));
}

/// Nothing else is drawn: every item that is dispatched is what a clip that
/// is shown at the frame shows at the frame counted from its start, in a
/// batch of the clip's shape.
pub proof fn law_dispatch_only_active<K: Clip>(
    clips: Seq<K>,
    frame: u64,
    batches: Seq<Batch<K::Instance>>,
    g: int,
    k: int,
)
    requires
        clips.len() <= usize::MAX,
        dispatched(clips, frame, batches),
        0 <= g < batches.len(),
        0 <= k < batches[g].items@.len(),
    ensures
        ({
            let draw = batched(clips, scheduled(clips, frame))[g].draws[k];
            let clip = clips[draw.clip as int];
            &&& draw.clip < clips.len()
            &&& clip.timing().active_at(frame)
            &&& draw.local_frame == frame - clip.timing().start
            &&& batches[g].shape == clip.shape_of()
            &&& clip.shows(draw.local_frame, batches[g].items@[k])
        }),
{
    let draws = scheduled(clips, frame);
    let groups = batched(clips, draws);
    let draw = groups[g].draws[k];
    assert(shown_as(clips, groups[g], batches[g]));
    law_batched(clips, draws);
    law_of_shape_members(clips, draws, groups[g].shape);
    assert(draw == of_shape(clips, draws, groups[g].shape)[k]);
    let at = choose|at: int| 0 <= at < draws.len() && draws[at] == draw;
    law_scheduled_are_active(clips, frame);
    assert(draws[at].clip < clips.len());
}

impl<K: Clip> Video<K> {
    /// The clips that are shown at `frame`, in their order, each with the
    /// frame of its own timelines.
    pub fn schedule(&self, frame: u64) -> (draws: Vec<Draw>)
        ensures
            draws@ == scheduled(self@, frame),
            draws@.len() <= self@.len(),
            forall|k: int|
                0 <= k < draws@.len() ==> {
                    let draw = #[trigger] draws@[k];
                    &&& draw.clip < self@.len()
                    &&& self@[draw.clip as int].timing().active_at(frame)
                    &&& draw.local_frame == frame - self@[draw.clip as int].timing().start
                },
            forall|k: int, l: int| 0 <= k < l < draws@.len() ==> draws@[k].clip < draws@[l].clip,
            forall|i: int|
                0 <= i < self@.len() && (#[trigger] self@[i]).timing().active_at(frame)
                    ==> draws@.contains(draw_of(self@, i, frame)),
    {
        let n: usize = self.clips.len();
        let mut draws: Vec<Draw> = Vec::new();
        let mut i: usize = 0;
        while i < n
            invariant
                i <= n,
                n == self.clips@.len(),
                draws@ == scheduled(self.clips@.take(i as int), frame),
            decreases n - i,
        {
            proof {
                assert(self.clips@.take(i + 1).drop_last() =~= self.clips@.take(i as int));
            }
            let clip = &self.clips[i];
            if clip.in_time_frame(frame) {
                draws.push(Draw { clip: i, local_frame: frame - clip.start() });
            }
            i += 1;
        }
        proof {
            assert(self.clips@.take(n as int) =~= self.clips@);
            law_scheduled_are_active(self@, frame);
            assert forall|i: int|
                0 <= i < self@.len() && (#[trigger] self@[i]).timing().active_at(
                    frame,
                ) implies draws@.contains(draw_of(self@, i, frame)) by {
                law_active_are_scheduled(self@, frame, i);
            }
        }
        draws
    }
    /// The draws of `frame` in batches of one shape each: the batches in the
    /// order in which their shapes first occur among the clips that are
    /// shown, the draws of a batch in the order of the clips.
    pub fn plan(&self, frame: u64) -> (batches: Vec<Batch<Draw>>)
        ensures
            groups_of(batches@) == batched(self@, scheduled(self@, frame)),
            forall|g: int| 0 <= g < batches@.len() ==> (#[trigger] batches@[g]).items@.len() > 0,
            forall|g: int, h: int|
                0 <= g < h < batches@.len() ==> batches@[g].shape != batches@[h].shape,
            forall|g: int, k: int|
                0 <= g < batches@.len() && 0 <= k < batches@[g].items@.len() ==> {
                    let draw = #[trigger] batches@[g].items@[k];
                    &&& draw.clip < self@.len()
                    &&& self@[draw.clip as int].timing().active_at(frame)
                    &&& draw.local_frame == frame - self@[draw.clip as int].timing().start
                    &&& batches@[g].shape == self@[draw.clip as int].shape_of()
                },
    {
        let draws = self.schedule(frame);
        proof {
            assert(self@.len() == self.clips.len());
            law_scheduled_are_active(self@, frame);
        }
        let n: usize = draws.len();
        let mut batches: Vec<Batch<Draw>> = Vec::new();
        let mut k: usize = 0;
        while k < n
            invariant
                k <= n,
                n == draws.len(),
                forall|j: int| 0 <= j < n ==> (#[trigger] draws@[j]).clip < self.clips@.len(),
                groups_of(batches@) =~= batched(self@, draws@.take(k as int)),
            decreases n - k,
        {
            let draw = draws[k];
            let shape = self.clips[draw.clip].shape();
            let ghost prev = groups_of(batches@);
            proof {
                assert(draws@.take(k + 1).drop_last() =~= draws@.take(k as int));
                assert(draws@.take(k + 1).last() == draw);
            }
            let m: usize = batches.len();
            let mut g: usize = 0;
            while g < m && !(batches[g].shape == shape)
                invariant
                    g <= m,
                    m == batches.len(),
                    prev == groups_of(batches@),
                    forall|j: int| 0 <= j < g ==> (#[trigger] prev[j]).shape != shape,
                decreases m - g,
            {
                g += 1;
            }
            proof {
                law_slot_found(prev, shape, g as int);
            }
            if g < m {
                batches[g].items.push(draw);
            } else {
                let mut items: Vec<Draw> = Vec::new();
                items.push(draw);
                batches.push(Batch { shape, items });
            }
            proof {
                assert(groups_of(batches@) =~= joined(prev, shape, draw));
            }
            k += 1;
        }
        proof {
            assert(draws@.take(n as int) =~= draws@);
            let groups = groups_of(batches@);
            law_batched(self@, draws@);
            assert forall|g: int| 0 <= g < batches@.len() implies (
            #[trigger] batches@[g]).items@.len() > 0 by {
                assert(groups[g].draws == batches@[g].items@);
            }
            assert forall|g: int, h: int| 0 <= g < h < batches@.len() implies batches@[g].shape
                != batches@[h].shape by {
                assert(slot(groups, groups[g].shape) == g);
                assert(slot(groups, groups[h].shape) == h);
            }
            assert forall|g: int, k: int|
                0 <= g < batches@.len() && 0 <= k < batches@[g].items@.len() implies {
                let draw = #[trigger] batches@[g].items@[k];
                &&& draw.clip < self@.len()
                &&& self@[draw.clip as int].timing().active_at(frame)
                &&& draw.local_frame == frame - self@[draw.clip as int].timing().start
                &&& batches@[g].shape == self@[draw.clip as int].shape_of()
            } by {
                let draw = batches@[g].items@[k];
                law_of_shape_members(self@, draws@, groups[g].shape);
                assert(draw == of_shape(self@, draws@, groups[g].shape)[k]);
                let at = choose|at: int| 0 <= at < draws@.len() && draws@[at] == draw;
                assert(draws@[at].clip < self@.len());
            }
        }
        batches
    }
    /// What the renderer draws at `frame`: for every clip that is shown, what
    /// it shows at the frame counted from its start, batched by shape as
    /// [`Video::plan`] says.
    pub fn dispatch(&self, frame: u64) -> (batches: Vec<Batch<K::Instance>>)
        ensures
            dispatched(self@, frame, batches@),
            forall|g: int| 0 <= g < batches@.len() ==> (#[trigger] batches@[g]).items@.len() > 0,
            forall|g: int, h: int|
                0 <= g < h < batches@.len() ==> batches@[g].shape != batches@[h].shape,
    {
        let plan = self.plan(frame);
        let ghost groups = batched(self@, scheduled(self@, frame));
        proof {
            assert(self@.len() == self.clips.len());
            law_planned_in_range(self@, frame);
        }
        let n: usize = plan.len();
        let mut batches: Vec<Batch<K::Instance>> = Vec::new();
        let mut g: usize = 0;
        while g < n
            invariant
                g <= n,
                n == plan.len(),
                groups == groups_of(plan@),
                groups == batched(self@, scheduled(self@, frame)),
                batches.len() == g,
                forall|h: int| 0 <= h < plan@.len() ==> (#[trigger] plan@[h]).items@.len() > 0,
                forall|h: int, j: int|
                    0 <= h < j < plan@.len() ==> plan@[h].shape != plan@[j].shape,
                forall|h: int, k: int|
                    0 <= h < groups.len() && 0 <= k < groups[h].draws.len() ==> (
                    #[trigger] groups[h].draws[k]).clip < self.clips@.len(),
                forall|h: int| 0 <= h < g ==> shown_as(self@, groups[h], #[trigger] batches@[h]),
            decreases n - g,
        {
            let batch = &plan[g];
            let ghost group = groups[g as int];
            assert(group == group_of(*batch));
            let m: usize = batch.items.len();
            let mut items: Vec<K::Instance> = Vec::new();
            let mut k: usize = 0;
            while k < m
                invariant
                    k <= m,
                    m == batch.items.len(),
                    group.draws == batch.items@,
                    items.len() == k,
                    forall|j: int|
                        0 <= j < m ==> (#[trigger] group.draws[j]).clip < self.clips@.len(),
                    forall|j: int|
                        0 <= j < k ==> self@[group.draws[j].clip as int].shows(
                            group.draws[j].local_frame,
                            #[trigger] items@[j],
                        ),
                decreases m - k,
            {
                let draw = batch.items[k];
                assert(draw == group.draws[k as int]);
                let instance = self.clips[draw.clip].instance(draw.local_frame);
                items.push(instance);
                k += 1;
            }
            batches.push(Batch { shape: batch.shape, items });
            g += 1;
        }
        batches
    }
}

} // verus!
