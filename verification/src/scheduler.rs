//! The scheduler: a batch of pipelines under a concurrency limit.
//!
//! A [`ConcurrencyScheduler`] holds one pipeline per playable track. It
//! starts the pipelines in the order of their tracks, as long as a permit of
//! its budget is free, routes each reported event to its pipeline, and
//! records the result of each pipeline as it ends. It performs no work
//! itself: the caller performs the actions that it hands out.

use crate::budget::ConcurrencyBudget;
use crate::fetch::AttemptReport;
use crate::pipeline::{
    fresh, lemma_fetch_attempts_bounded, lemma_step_follows_stages, step_model, Action, ActionView,
    Event, EventView, Pipeline, PipelineView, Stage,
};
use crate::retry::{lemma_backoff_doubles, valid, RetryPolicy};
use crate::track::{
    playable_count, result_views, track_views, FetchResult, FetchResultView, OutcomeView,
    TrackDescriptor, TrackView,
};
use vstd::prelude::*;

verus! {

/// What has become of one track of the batch.
#[derive(Clone, Copy, Debug, PartialEq, Eq)]
pub enum Slot {
    /// The track has no preview URL and is left out.
    Skipped,
    /// The track's pipeline waits for a permit.
    Queued,
    /// The track's pipeline holds a permit.
    Running,
    /// The track's pipeline has ended and its result is recorded.
    Finished,
}

/// An action that the caller is to perform for the track at `index`.
#[derive(Clone, Debug, PartialEq, Eq)]
pub struct Dispatch {
    /// The position of the track in the batch.
    pub index: usize,
    /// What to do for it.
    pub action: Action,
}

/// The slot of a track, by its pipeline: `Skipped` without one, `Queued`
/// while it is pending, `Finished` once it has ended, `Running` in between.
pub open spec fn slot_of(pipeline: Option<PipelineView>) -> Slot {
    match pipeline {
        None => Slot::Skipped,
        Some(p) => if p.stage is Pending {
            Slot::Queued
        } else if p.stage.is_final() {
            Slot::Finished
        } else {
            Slot::Running
        },
    }
}

/// The slot of each track, by position.
pub open spec fn slots_of(pipelines: Seq<Option<PipelineView>>) -> Seq<Slot> {
    Seq::new(pipelines.len(), |i: int| slot_of(pipelines[i]))
}

/// The number of slots of `slots` that are in state `kind`.
pub open spec fn count_slots(slots: Seq<Slot>, kind: Slot) -> nat
    decreases slots.len(),
{
    if slots.len() == 0 {
        0
    } else {
        count_slots(slots.drop_last(), kind) + if slots.last() == kind {
            1nat
        } else {
            0nat
        }
    }
}

/// Position `index` holds the first queued slot of `slots`.
pub open spec fn is_first_queued(slots: Seq<Slot>, index: int) -> bool {
    &&& 0 <= index < slots.len()
    &&& slots[index] is Queued
    &&& forall|i: int| 0 <= i < index ==> !(#[trigger] slots[i] is Queued)
}

/// An outcome agrees with the stage in which its pipeline ended.
pub open spec fn outcome_fits(stage: Stage, outcome: OutcomeView) -> bool {
    match stage {
        Stage::Played => outcome is Success,
        Stage::FetchFailed => outcome matches OutcomeView::Failure(kind) && kind is TerminalFetch,
        Stage::PlayFailed => outcome matches OutcomeView::Failure(kind) && !(kind is TerminalFetch),
        _ => false,
    }
}

/// The mathematical content of a [`ConcurrencyScheduler`].
pub struct SchedulerView {
    /// The tracks of the batch, in the order given.
    pub tracks: Seq<TrackView>,
    /// The pipeline of each track, by position; none for a track without a
    /// preview URL.
    pub pipelines: Seq<Option<PipelineView>>,
    /// The number of pipelines that may run at once.
    pub limit: nat,
    /// The base delay of the retry policy.
    pub base: nat,
    /// The results recorded so far, in the order of completion.
    pub results: Seq<FetchResultView>,
    /// For each result, the position of its track.
    pub sources: Seq<int>,
}

impl SchedulerView {
    /// The slot of each track, by position.
    pub open spec fn slots(self) -> Seq<Slot> {
        slots_of(self.pipelines)
    }

    /// The number of pipelines that hold a permit: those in the stages
    /// `Fetching`, `Fetched` and `Playing`.
    pub open spec fn in_flight(self) -> nat {
        count_slots(self.slots(), Slot::Running)
    }

    /// The number of pipelines that wait for a permit.
    pub open spec fn queued(self) -> nat {
        count_slots(self.slots(), Slot::Queued)
    }

    /// The batch is complete: nothing is queued and nothing runs.
    pub open spec fn done(self) -> bool {
        self.queued() == 0 && self.in_flight() == 0
    }

    /// Some result has the track at position `i` as its source.
    pub open spec fn has_result(self, i: int) -> bool {
        exists|k: int| 0 <= k < self.sources.len() && #[trigger] self.sources[k] == i
    }

    /// The invariant of a scheduler.
    ///
    /// - A track has a pipeline exactly where it is playable; the pipeline
    ///   downloads the track's preview URL, its retry state is valid, and
    ///   while it is pending it is as it was made.
    /// - No more pipelines are in flight than the limit allows.
    /// - There is one result per ended pipeline: the sources are the
    ///   positions of the ended pipelines, each once, and each result bears
    ///   its track's name and an outcome that fits the pipeline's last stage.
    pub open spec fn valid(self) -> bool {
        &&& self.pipelines.len() == self.tracks.len()
        &&& forall|i: int|
            0 <= i < self.pipelines.len() ==> match #[trigger] self.pipelines[i] {
                None => !self.tracks[i].is_playable(),
                Some(p) => {
                    &&& self.tracks[i].preview_url == Some(p.url)
                    &&& valid(p.retry)
                    &&& p.retry.base == self.base
                    &&& p.stage is Pending ==> p == fresh(p.url, self.base)
                },
            }
        &&& 1 <= self.limit
        &&& self.in_flight() <= self.limit
        &&& self.results.len() == self.sources.len()
        &&& self.results.len() == count_slots(self.slots(), Slot::Finished)
        &&& forall|k: int|
            0 <= k < self.sources.len() ==> {
                &&& 0 <= (#[trigger] self.sources[k]) < self.pipelines.len()
                &&& self.pipelines[self.sources[k]] matches Some(p)
                &&& outcome_fits(p.stage, self.results[k].outcome)
                &&& self.results[k].track_name == self.tracks[self.sources[k]].name
            }
        &&& forall|j: int, k: int|
            0 <= j < k < self.sources.len() ==> #[trigger] self.sources[j] != #[trigger] self.sources[k]
        &&& forall|i: int|
            0 <= i < self.pipelines.len() && #[trigger] slot_of(self.pipelines[i]) is Finished
                ==> self.has_result(i)
    }

    /// A pipeline can start: a permit is free and a pipeline is queued.
    pub open spec fn can_start(self) -> bool {
        self.in_flight() < self.limit && self.queued() > 0
    }

    /// The state after the pipeline at `index` has started, and the first
    /// action of that pipeline.
    pub open spec fn started(self, index: int) -> (SchedulerView, ActionView) {
        let (next, action) = step_model(self.pipelines[index].unwrap(), EventView::Started);
        (SchedulerView { pipelines: self.pipelines.update(index, Some(next)), ..self }, action)
    }

    /// An event for the track at `index` is taken where that track has a
    /// pipeline in flight.
    pub open spec fn takes_event(self, index: int) -> bool {
        &&& 0 <= index < self.pipelines.len()
        &&& self.pipelines[index] matches Some(p)
        &&& p.stage.is_active()
    }

    /// The state after `event` was reported for the track at `index`, and
    /// the action that follows.
    ///
    /// Where the track has a pipeline in flight, the pipeline takes the
    /// event. If it ends thereby, its outcome is recorded as the result of
    /// its track. Anywhere else the event is ignored and nothing changes.
    pub open spec fn reported(self, index: int, event: EventView) -> (SchedulerView, ActionView) {
        if self.takes_event(index) {
            let (next, action) = step_model(self.pipelines[index].unwrap(), event);
            let moved = SchedulerView { pipelines: self.pipelines.update(index, Some(next)), ..self };
            match action {
                ActionView::Finish { outcome } => (
                    SchedulerView {
                        results: self.results.push(
                            FetchResultView { track_name: self.tracks[index].name, outcome },
                        ),
                        sources: self.sources.push(index),
                        ..moved
                    },
                    action,
                ),
                _ => (moved, action),
            }
        } else {
            (self, ActionView::Ignored)
        }
    }
}

/// The pipelines of a batch before anything has started: a fresh pipeline
/// for each playable track.
pub open spec fn initial_pipelines(tracks: Seq<TrackView>, base: nat) -> Seq<Option<PipelineView>> {
    Seq::new(
        tracks.len(),
        |i: int|
            match tracks[i].preview_url {
                Some(url) => Some(fresh(url, base)),
                None => None,
            },
    )
}

/// The scheduler of a batch before anything has started.
pub open spec fn initial_schedule(tracks: Seq<TrackView>, limit: nat, base: nat) -> SchedulerView {
    SchedulerView {
        tracks,
        pipelines: initial_pipelines(tracks, base),
        limit,
        base,
        results: Seq::empty(),
        sources: Seq::empty(),
    }
}

proof fn lemma_count_update(slots: Seq<Slot>, index: int, slot: Slot, kind: Slot)
    requires
        0 <= index < slots.len(),
    ensures
        count_slots(slots.update(index, slot), kind) + (if slots[index] == kind {
            1nat
        } else {
            0nat
        }) == count_slots(slots, kind) + (if slot == kind {
            1nat
        } else {
            0nat
        }),
    decreases slots.len(),
{
    if index == slots.len() - 1 {
        assert(slots.update(index, slot).drop_last() =~= slots.drop_last());
    } else {
        lemma_count_update(slots.drop_last(), index, slot, kind);
        assert(slots.update(index, slot).drop_last() =~= slots.drop_last().update(index, slot));
    }
}

proof fn lemma_count_positive(slots: Seq<Slot>, kind: Slot)
    ensures
        count_slots(slots, kind) <= slots.len(),
        count_slots(slots, kind) > 0 <==> exists|i: int|
            0 <= i < slots.len() && #[trigger] slots[i] == kind,
    decreases slots.len(),
{
    if slots.len() > 0 {
        let front = slots.drop_last();
        lemma_count_positive(front, kind);
        if count_slots(slots, kind) > 0 {
            if slots.last() == kind {
                assert(slots[slots.len() - 1] == kind);
            } else {
                let i = choose|i: int| 0 <= i < front.len() && #[trigger] front[i] == kind;
                assert(slots[i] == kind);
            }
        }
        if exists|i: int| 0 <= i < slots.len() && #[trigger] slots[i] == kind {
            let i = choose|i: int| 0 <= i < slots.len() && #[trigger] slots[i] == kind;
            if i < slots.len() - 1 {
                assert(front[i] == kind);
            }
        }
    }
}

proof fn lemma_count_partition(slots: Seq<Slot>)
    ensures
        count_slots(slots, Slot::Skipped) + count_slots(slots, Slot::Queued) + count_slots(
            slots,
            Slot::Running,
        ) + count_slots(slots, Slot::Finished) == slots.len(),
    decreases slots.len(),
{
    if slots.len() > 0 {
        lemma_count_partition(slots.drop_last());
    }
}

proof fn lemma_skipped_are_unplayable(tracks: Seq<TrackView>, slots: Seq<Slot>)
    requires
        slots.len() == tracks.len(),
        forall|i: int|
            0 <= i < slots.len() ==> (#[trigger] slots[i] is Skipped <==> !tracks[i].is_playable()),
    ensures
        count_slots(slots, Slot::Skipped) + playable_count(tracks) == tracks.len(),
    decreases slots.len(),
{
    if slots.len() > 0 {
        let last = slots.len() - 1;
        assert(slots[last] is Skipped <==> !tracks[last].is_playable());
        assert forall|i: int| 0 <= i < slots.drop_last().len() implies (
        #[trigger] slots.drop_last()[i] is Skipped <==> !tracks.drop_last()[i].is_playable()) by {
            assert(slots[i] is Skipped <==> !tracks[i].is_playable());
        }
        lemma_skipped_are_unplayable(tracks.drop_last(), slots.drop_last());
    }
}

/// Replacing one pipeline replaces one slot.
proof fn lemma_slots_update(schedule: SchedulerView, index: int, next: PipelineView)
    requires
        0 <= index < schedule.pipelines.len(),
    ensures
        (SchedulerView { pipelines: schedule.pipelines.update(index, Some(next)), ..schedule }).slots()
            == schedule.slots().update(index, slot_of(Some(next))),
{
    let moved = SchedulerView { pipelines: schedule.pipelines.update(index, Some(next)), ..schedule };
    assert(moved.slots() =~= schedule.slots().update(index, slot_of(Some(next))));
}

/// A start keeps a scheduler valid and takes one permit.
pub proof fn lemma_start_keeps_valid(schedule: SchedulerView, index: int)
    requires
        schedule.valid(),
        schedule.can_start(),
        is_first_queued(schedule.slots(), index),
    ensures
        schedule.started(index).0.valid(),
        schedule.started(index).0.in_flight() == schedule.in_flight() + 1,
        schedule.started(index).0.queued() + 1 == schedule.queued(),
        schedule.started(index).0.results == schedule.results,
        schedule.started(index).0.sources == schedule.sources,
        schedule.started(index).1 == (ActionView::Fetch {
            url: schedule.tracks[index].preview_url.unwrap(),
            attempt: 1,
            after: 0,
        }),
{
    let p = schedule.pipelines[index].unwrap();
    let (next, action) = step_model(p, EventView::Started);
    let after = schedule.started(index).0;
    assert(schedule.slots()[index] == slot_of(schedule.pipelines[index]));
    lemma_slots_update(schedule, index, next);
    lemma_count_update(schedule.slots(), index, Slot::Running, Slot::Queued);
    lemma_count_update(schedule.slots(), index, Slot::Running, Slot::Running);
    lemma_count_update(schedule.slots(), index, Slot::Running, Slot::Finished);
    assert forall|i: int| 0 <= i < after.pipelines.len() implies match #[trigger] after.pipelines[i] {
        None => !after.tracks[i].is_playable(),
        Some(q) => {
            &&& after.tracks[i].preview_url == Some(q.url)
            &&& valid(q.retry)
            &&& q.retry.base == after.base
            &&& q.stage is Pending ==> q == fresh(q.url, after.base)
        },
    } by {
        assert(schedule.pipelines[i] is None || schedule.pipelines[i] is Some);
    }
    assert forall|k: int| 0 <= k < after.sources.len() implies {
        &&& 0 <= (#[trigger] after.sources[k]) < after.pipelines.len()
        &&& after.pipelines[after.sources[k]] matches Some(q)
        &&& outcome_fits(q.stage, after.results[k].outcome)
        &&& after.results[k].track_name == after.tracks[after.sources[k]].name
    } by {
        assert(schedule.sources[k] < schedule.pipelines.len());
    }
    assert forall|i: int|
        0 <= i < after.pipelines.len() && #[trigger] slot_of(after.pipelines[i]) is Finished implies after.has_result(
        i,
    ) by {
        assert(slot_of(schedule.pipelines[i]) is Finished);
        assert(schedule.has_result(i));
    }
}

/// A reported event keeps a scheduler valid. Where a pipeline ends by it,
/// one permit comes back and one result is added; otherwise the numbers of
/// permits held and of results stay.
pub proof fn lemma_report_keeps_valid(schedule: SchedulerView, index: int, event: EventView)
    requires
        schedule.valid(),
    ensures
        schedule.reported(index, event).0.valid(),
        schedule.reported(index, event).0.queued() == schedule.queued(),
        schedule.reported(index, event).1 is Finish ==> {
            &&& schedule.reported(index, event).0.in_flight() + 1 == schedule.in_flight()
            &&& schedule.reported(index, event).0.results.len() == schedule.results.len() + 1
        },
        !(schedule.reported(index, event).1 is Finish) ==> {
            &&& schedule.reported(index, event).0.in_flight() == schedule.in_flight()
            &&& schedule.reported(index, event).0.results == schedule.results
            &&& schedule.reported(index, event).0.sources == schedule.sources
        },
{
    if schedule.takes_event(index) {
        let p = schedule.pipelines[index].unwrap();
        let (next, action) = step_model(p, event);
        let after = schedule.reported(index, event).0;
        let moved = SchedulerView { pipelines: schedule.pipelines.update(index, Some(next)), ..schedule };
        lemma_step_follows_stages(p, event);
        lemma_fetch_attempts_bounded(p, event);
        assert(schedule.slots()[index] == slot_of(schedule.pipelines[index]));
        lemma_slots_update(schedule, index, next);
        assert(after.slots() == moved.slots());
        let slot = slot_of(Some(next));
        lemma_count_update(schedule.slots(), index, slot, Slot::Queued);
        lemma_count_update(schedule.slots(), index, slot, Slot::Running);
        lemma_count_update(schedule.slots(), index, slot, Slot::Finished);
        assert forall|i: int| 0 <= i < after.pipelines.len() implies match #[trigger] after.pipelines[i] {
            None => !after.tracks[i].is_playable(),
            Some(q) => {
                &&& after.tracks[i].preview_url == Some(q.url)
                &&& valid(q.retry)
                &&& q.retry.base == after.base
                &&& q.stage is Pending ==> q == fresh(q.url, after.base)
            },
        } by {
            assert(schedule.pipelines[i] is None || schedule.pipelines[i] is Some);
        }
        let last = schedule.sources.len() as int;
        assert forall|k: int| 0 <= k < after.sources.len() implies {
            &&& 0 <= (#[trigger] after.sources[k]) < after.pipelines.len()
            &&& after.pipelines[after.sources[k]] matches Some(q)
            &&& outcome_fits(q.stage, after.results[k].outcome)
            &&& after.results[k].track_name == after.tracks[after.sources[k]].name
        } by {
            if k < last {
                assert(schedule.sources[k] < schedule.pipelines.len());
                assert(schedule.sources[k] != index);
            }
        }
        assert forall|j: int, k: int| 0 <= j < k < after.sources.len() implies #[trigger] after.sources[j]
            != #[trigger] after.sources[k] by {
            assert(schedule.sources[j] < schedule.pipelines.len());
            if k < last {
                assert(schedule.sources[j] != schedule.sources[k]);
            }
        }
        assert forall|i: int|
            0 <= i < after.pipelines.len() && #[trigger] slot_of(after.pipelines[i]) is Finished implies after.has_result(
            i,
        ) by {
            if i == index {
                assert(action is Finish);
                assert(after.sources[last] == i);
            } else {
                assert(slot_of(schedule.pipelines[i]) is Finished);
                assert(schedule.has_result(i));
                let k = choose|k: int| 0 <= k < schedule.sources.len() && #[trigger] schedule.sources[k] == i;
                assert(after.sources[k] == i);
            }
        }
    }
}

/// A track without a preview URL never gets a pipeline or a result: its slot
/// is `Skipped`, it cannot be started, no event is taken for it, and no
/// result has it as its source.
pub proof fn lemma_unplayable_never_runs(schedule: SchedulerView, index: int)
    requires
        schedule.valid(),
        0 <= index < schedule.tracks.len(),
        !schedule.tracks[index].is_playable(),
    ensures
        schedule.pipelines[index] is None,
        schedule.slots()[index] is Skipped,
        !is_first_queued(schedule.slots(), index),
        !schedule.takes_event(index),
        !schedule.has_result(index),
{
    assert(schedule.pipelines[index] is None);
    if schedule.has_result(index) {
        let k = choose|k: int| 0 <= k < schedule.sources.len() && #[trigger] schedule.sources[k] == index;
        assert(schedule.sources[k] < schedule.pipelines.len());
    }
}

/// Every playable track is queued, in flight or has its result, and no
/// other track is; so a complete batch has as many results as the batch has
/// playable tracks.
pub proof fn lemma_results_when_done(schedule: SchedulerView)
    requires
        schedule.valid(),
    ensures
        schedule.results.len() + schedule.in_flight() + schedule.queued() == playable_count(
            schedule.tracks,
        ),
        schedule.done() ==> schedule.results.len() == playable_count(schedule.tracks),
{
    let slots = schedule.slots();
    lemma_count_partition(slots);
    assert forall|i: int| 0 <= i < slots.len() implies (#[trigger] slots[i] is Skipped
        <==> !schedule.tracks[i].is_playable()) by {
        assert(schedule.pipelines[i] is None || schedule.pipelines[i] is Some);
    }
    lemma_skipped_are_unplayable(schedule.tracks, slots);
}

/// No more pipelines are in flight than the limit allows; and a batch that
/// is not complete is never stuck: a pipeline can start, or one is in flight
/// whose end will free a permit.
pub proof fn lemma_bounded_and_never_stuck(schedule: SchedulerView)
    requires
        schedule.valid(),
    ensures
        schedule.in_flight() <= schedule.limit,
        !schedule.done() ==> schedule.can_start() || schedule.in_flight() > 0,
{
}

/// In a complete batch every playable track has exactly one result; that
/// result bears the track's name, and its outcome fits the stage in which
/// the track's pipeline ended.
pub proof fn lemma_one_result_per_playable(schedule: SchedulerView, index: int)
    requires
        schedule.valid(),
        schedule.done(),
        0 <= index < schedule.tracks.len(),
        schedule.tracks[index].is_playable(),
    ensures
        exists|k: int|
            {
                &&& 0 <= k < schedule.results.len()
                &&& #[trigger] schedule.sources[k] == index
                &&& schedule.results[k].track_name == schedule.tracks[index].name
                &&& outcome_fits(schedule.pipelines[index].unwrap().stage, schedule.results[k].outcome)
                &&& forall|j: int|
                    0 <= j < schedule.results.len() && #[trigger] schedule.sources[j] == index ==> j
                        == k
            },
{
    let slots = schedule.slots();
    lemma_count_positive(slots, Slot::Queued);
    lemma_count_positive(slots, Slot::Running);
    assert(schedule.pipelines[index] is Some);
    assert(slots[index] == slot_of(schedule.pipelines[index]));
    assert(slots[index] != Slot::Queued);
    assert(slots[index] != Slot::Running);
    assert(slot_of(schedule.pipelines[index]) is Finished);
    assert(schedule.has_result(index));
    let k = choose|k: int| 0 <= k < schedule.sources.len() && #[trigger] schedule.sources[k] == index;
    assert forall|j: int|
        0 <= j < schedule.results.len() && #[trigger] schedule.sources[j] == index implies j == k by {
        if j < k {
            assert(schedule.sources[j] != schedule.sources[k]);
        } else if k < j {
            assert(schedule.sources[k] != schedule.sources[j]);
        }
    }
}

/// Before anything has started a batch is valid: every playable track is
/// queued, nothing is in flight, and there are no results.
pub proof fn lemma_initial_schedule_valid(tracks: Seq<TrackView>, limit: nat, base: nat)
    requires
        limit >= 1,
        base <= u32::MAX,
    ensures
        initial_schedule(tracks, limit, base).valid(),
        initial_schedule(tracks, limit, base).queued() == playable_count(tracks),
        initial_schedule(tracks, limit, base).in_flight() == 0,
{
    lemma_initial_counts(tracks, base);
    lemma_backoff_doubles(base, 1);
}

proof fn lemma_initial_counts(tracks: Seq<TrackView>, base: nat)
    ensures
        count_slots(slots_of(initial_pipelines(tracks, base)), Slot::Queued) == playable_count(tracks),
        count_slots(slots_of(initial_pipelines(tracks, base)), Slot::Running) == 0,
        count_slots(slots_of(initial_pipelines(tracks, base)), Slot::Finished) == 0,
    decreases tracks.len(),
{
    if tracks.len() > 0 {
        lemma_initial_counts(tracks.drop_last(), base);
        assert(slots_of(initial_pipelines(tracks, base)).drop_last() =~= slots_of(
            initial_pipelines(tracks.drop_last(), base),
        ));
    }
}

/// The pipelines in `pipelines`, each by its content.
pub open spec fn pipeline_views(pipelines: Seq<Option<Pipeline>>) -> Seq<Option<PipelineView>> {
    Seq::new(
        pipelines.len(),
        |i: int|
            match pipelines[i] {
                Some(pipeline) => Some(pipeline@),
                None => None,
            },
    )
}

/// The positions in `sources`, as integers.
pub open spec fn source_positions(sources: Seq<usize>) -> Seq<int> {
    Seq::new(sources.len(), |k: int| sources[k] as int)
}

/// A batch of tracks on its way through a bounded number of pipelines.
#[derive(Debug)]
pub struct ConcurrencyScheduler {
    tracks: Vec<TrackDescriptor>,
    pipelines: Vec<Option<Pipeline>>,
    base_delay_ms: u32,
    budget: ConcurrencyBudget,
    cursor: usize,
    queued: usize,
    results: Vec<FetchResult>,
    sources: Vec<usize>,
}

impl View for ConcurrencyScheduler {
    type V = SchedulerView;

    closed spec fn view(&self) -> SchedulerView {
        SchedulerView {
            tracks: track_views(self.tracks@),
            pipelines: pipeline_views(self.pipelines@),
            limit: self.budget@.limit,
            base: self.base_delay_ms as nat,
            results: result_views(self.results@),
            sources: source_positions(self.sources@),
        }
    }
}

impl ConcurrencyScheduler {
    /// The scheduler's own bookkeeping agrees with its content: the permits
    /// held are those of the pipelines in flight.
    pub closed spec fn counters_agree(&self) -> bool {
        &&& self.budget.wf()
        &&& self.budget@.in_use == self@.in_flight()
        &&& self.queued == self@.queued()
        &&& self.cursor <= self.pipelines.len()
        &&& forall|i: int| 0 <= i < self.cursor ==> !(#[trigger] self@.slots()[i] is Queued)
    }

    /// The scheduler is well formed: its content is valid, and its
    /// bookkeeping agrees with it.
    pub open spec fn wf(&self) -> bool {
        self@.valid() && self.counters_agree()
    }

    /// A scheduler for `tracks` that runs at most `limit` pipelines at once
    /// and retries downloads by `policy`. Every track with a preview URL gets
    /// a pipeline, pending; the others are left out from the start.
    pub fn new(tracks: Vec<TrackDescriptor>, limit: usize, policy: RetryPolicy) -> (scheduler:
        ConcurrencyScheduler)
        requires
            limit >= 1,
        ensures
            scheduler.wf(),
            scheduler@ == initial_schedule(
                track_views(tracks@),
                limit as nat,
                policy.base_delay_ms as nat,
            ),
            scheduler@.in_flight() == 0,
            scheduler@.queued() == playable_count(track_views(tracks@)),
    {
        let ghost views = track_views(tracks@);
        let ghost base = policy.base_delay_ms as nat;
        let mut pipelines: Vec<Option<Pipeline>> = Vec::new();
        let mut queued: usize = 0;
        let mut i: usize = 0;
        while i < tracks.len()
            invariant
                i <= tracks.len(),
                views == track_views(tracks@),
                base == policy.base_delay_ms,
                pipelines.len() == i,
                pipeline_views(pipelines@) == initial_pipelines(views.take(i as int), base),
                queued == playable_count(views.take(i as int)),
                queued <= i,
            decreases tracks.len() - i,
        {
            let seat = match &tracks[i].preview_url {
                Some(url) => Some(Pipeline::new(url.clone(), &policy)),
                None => None,
            };
            proof {
                assert(views.take(i + 1).drop_last() =~= views.take(i as int));
                let grown = pipeline_views(pipelines@.push(seat));
                let wanted = initial_pipelines(views.take(i + 1), base);
                assert forall|j: int| 0 <= j < grown.len() implies grown[j] == wanted[j] by {
                    if j < i {
                        assert(pipeline_views(pipelines@)[j] == initial_pipelines(
                            views.take(i as int),
                            base,
                        )[j]);
                    } else {
                        assert(views[j] == tracks@[j]@);
                    }
                }
                assert(grown =~= wanted);
            }
            if seat.is_some() {
                queued = queued + 1;
            }
            pipelines.push(seat);
            i = i + 1;
        }
        let scheduler = ConcurrencyScheduler {
            tracks,
            pipelines,
            base_delay_ms: policy.base_delay_ms,
            budget: ConcurrencyBudget::new(limit),
            cursor: 0,
            queued,
            results: Vec::new(),
            sources: Vec::new(),
        };
        proof {
            assert(views.take(i as int) =~= views);
            assert(scheduler@.results =~= Seq::empty());
            assert(scheduler@.sources =~= Seq::empty());
            lemma_initial_schedule_valid(views, limit as nat, base);
        }
        scheduler
    }

    fn queued_at(&self, index: usize) -> (queued: bool)
        requires
            index < self.pipelines.len(),
        ensures
            queued == (self@.slots()[index as int] is Queued),
    {
        match &self.pipelines[index] {
            Some(pipeline) => pipeline.stage().pending(),
            None => false,
        }
    }

    /// Starts the first queued pipeline, if a permit is free.
    ///
    /// The result is `None`, and nothing changes, where no permit is free or
    /// no pipeline is queued. Otherwise the first queued pipeline takes a
    /// permit and moves to `Fetching`; the result names its track and holds
    /// its first action, the first download of the track's preview URL.
    #[verifier::loop_isolation(false)]
    pub fn start_next(&mut self) -> (dispatch: Option<Dispatch>)
        requires
            old(self).wf(),
        ensures
            final(self).wf(),
            dispatch is Some <==> old(self)@.can_start(),
            dispatch is None ==> final(self)@ == old(self)@,
            dispatch matches Some(d) ==> {
                &&& is_first_queued(old(self)@.slots(), d.index as int)
                &&& (final(self)@, d.action@) == old(self)@.started(d.index as int)
                &&& d.action@ == (ActionView::Fetch {
                    url: old(self)@.tracks[d.index as int].preview_url.unwrap(),
                    attempt: 1,
                    after: 0,
                })
                &&& final(self)@.in_flight() == old(self)@.in_flight() + 1
                &&& final(self)@.queued() + 1 == old(self)@.queued()
            },
    {
        if self.queued == 0 || self.budget.available() == 0 {
            return None;
        }
        proof {
            lemma_count_positive(self@.slots(), Slot::Queued);
        }
        let ghost witness = choose|k: int|
            0 <= k < self@.slots().len() && #[trigger] self@.slots()[k] == Slot::Queued;
        let mut i: usize = self.cursor;
        while !self.queued_at(i)
            invariant
                self.cursor <= i <= witness < self.pipelines.len(),
                forall|j: int| 0 <= j < i ==> !(#[trigger] self@.slots()[j] is Queued),
                *self == *old(self),
            decreases self.pipelines.len() - i,
        {
            i = i + 1;
        }
        let mut seat: Option<Pipeline> = None;
        self.pipelines.set_and_swap(i, &mut seat);
        let mut pipeline = seat.unwrap();
        let action = pipeline.step(Event::Started);
        self.pipelines.set(i, Some(pipeline));
        self.cursor = i + 1;
        self.queued = self.queued - 1;
        let acquired = self.budget.try_acquire();
        assert(acquired);
        proof {
            let before = old(self)@;
            lemma_start_keeps_valid(before, i as int);
            assert(self@.pipelines =~= before.started(i as int).0.pipelines);
            assert(self@ == before.started(i as int).0);
            assert forall|j: int| 0 <= j < self.cursor implies !(#[trigger] self@.slots()[j] is Queued) by {
                assert(!(before.slots()[j] is Queued) || j == i);
            }
        }
        Some(Dispatch { index: i, action })
    }

    /// Takes `event` for the track at `index`: see
    /// [`SchedulerView::reported`].
    ///
    /// The event goes to the track's pipeline if that is in flight, and the
    /// result is the action that the pipeline asks for next. Where the
    /// pipeline ends, its permit comes back and its outcome is recorded under
    /// the track's name. Anywhere else the result is `Ignored` and nothing
    /// changes.
    pub fn report(&mut self, index: usize, event: Event) -> (action: Action)
        requires
            old(self).wf(),
        ensures
            final(self).wf(),
            (final(self)@, action@) == old(self)@.reported(index as int, event@),
            final(self)@.queued() == old(self)@.queued(),
            final(self)@.in_flight() + (if action is Finish {
                1nat
            } else {
                0nat
            }) == old(self)@.in_flight(),
            final(self)@.results.len() == old(self)@.results.len() + (if action is Finish {
                1nat
            } else {
                0nat
            }),
    {
        if index >= self.pipelines.len() {
            return Action::Ignored;
        }
        let ghost before = self@;
        let mut seat: Option<Pipeline> = None;
        self.pipelines.set_and_swap(index, &mut seat);
        match seat {
            None => {
                proof {
                    assert(self@.pipelines =~= before.pipelines);
                }
                Action::Ignored
            },
            Some(mut pipeline) => {
                if !pipeline.stage().active() {
                    self.pipelines.set(index, Some(pipeline));
                    proof {
                        assert(self@.pipelines =~= before.pipelines);
                    }
                    return Action::Ignored;
                }
                let action = pipeline.step(event);
                self.pipelines.set(index, Some(pipeline));
                proof {
                    lemma_report_keeps_valid(before, index as int, event@);
                    lemma_count_positive(before.slots(), Slot::Running);
                    assert(before.slots()[index as int] == Slot::Running);
                    assert(self@.pipelines =~= before.pipelines.update(
                        index as int,
                        Some(step_model(before.pipelines[index as int].unwrap(), event@).0),
                    ));
                    lemma_step_follows_stages(before.pipelines[index as int].unwrap(), event@);
                }
                match &action {
                    Action::Finish { outcome } => {
                        let released = self.budget.release();
                        assert(released);
                        let result = FetchResult {
                            track_name: self.tracks[index].name.clone(),
                            outcome: outcome.duplicate(),
                        };
                        self.results.push(result);
                        self.sources.push(index);
                        proof {
                            assert(self@.results =~= before.results.push(result@));
                            assert(self@.sources =~= before.sources.push(index as int));
                        }
                    },
                    _ => {},
                }
                proof {
                    let after = before.reported(index as int, event@).0;
                    assert(self@ == after);
                    assert forall|j: int| 0 <= j < self.cursor implies !(
                    #[trigger] self@.slots()[j] is Queued) by {
                        assert(!(before.slots()[j] is Queued));
                    }
                }
                action
            },
        }
    }

    /// Takes the report of a download attempt for the track at `index`, with
    /// a jitter drawn at random for the wait that follows if the attempt is
    /// retried.
    pub fn report_fetch(&mut self, index: usize, report: AttemptReport) -> (action: Action)
        requires
            old(self).wf(),
        ensures
            final(self).wf(),
            exists|sample: u64|
                (final(self)@, action@) == old(self)@.reported(
                    index as int,
                    EventView::FetchReported { report: report@, sample: sample as nat },
                ),
    {
        let sample: u64 = if index < self.pipelines.len() {
            match &self.pipelines[index] {
                Some(pipeline) => pipeline.jitter_sample(),
                None => 0,
            }
        } else {
            0
        };
        let ghost before = self@;
        let action = self.report(index, Event::FetchReported { report, sample });
        assert((self@, action@) == before.reported(
            index as int,
            EventView::FetchReported { report: report@, sample: sample as nat },
        ));
        action
    }

    /// Tells whether the batch is complete: nothing is queued and nothing
    /// runs. Every playable track then has its result.
    pub fn is_done(&self) -> (done: bool)
        requires
            self.wf(),
        ensures
            done == self@.done(),
            done ==> self@.results.len() == playable_count(self@.tracks),
    {
        proof {
            lemma_results_when_done(self@);
        }
        self.queued == 0 && self.budget.in_use() == 0
    }

    /// The number of pipelines that hold a permit; never above the limit.
    pub fn in_flight(&self) -> (in_flight: usize)
        requires
            self.wf(),
        ensures
            in_flight == self@.in_flight(),
            in_flight <= self@.limit,
    {
        self.budget.in_use()
    }

    /// The number of pipelines that may run at once.
    pub fn limit(&self) -> (limit: usize)
        ensures
            limit == self@.limit,
    {
        self.budget.limit()
    }

    /// The number of pipelines that wait for a permit.
    pub fn queued(&self) -> (queued: usize)
        requires
            self.wf(),
        ensures
            queued == self@.queued(),
    {
        self.queued
    }

    /// The tracks of the batch, in the order given.
    pub fn tracks(&self) -> (tracks: &Vec<TrackDescriptor>)
        ensures
            track_views(tracks@) == self@.tracks,
    {
        &self.tracks
    }

    /// What has become of the track at `index`, if the batch has one there.
    pub fn slot(&self, index: usize) -> (slot: Option<Slot>)
        ensures
            slot == if index < self@.pipelines.len() {
                Some(self@.slots()[index as int])
            } else {
                None::<Slot>
            },
    {
        if index < self.pipelines.len() {
            match &self.pipelines[index] {
                None => Some(Slot::Skipped),
                Some(pipeline) => {
                    let stage = pipeline.stage();
                    if stage.pending() {
                        Some(Slot::Queued)
                    } else if stage.finished() {
                        Some(Slot::Finished)
                    } else {
                        Some(Slot::Running)
                    }
                },
            }
        } else {
            None
        }
    }

    /// The stage of the pipeline of the track at `index`, if it has one.
    pub fn stage(&self, index: usize) -> (stage: Option<Stage>)
        ensures
            stage == if index < self@.pipelines.len() && self@.pipelines[index as int] is Some {
                Some(self@.pipelines[index as int].unwrap().stage)
            } else {
                None::<Stage>
            },
    {
        if index < self.pipelines.len() {
            match &self.pipelines[index] {
                None => None,
                Some(pipeline) => Some(pipeline.stage()),
            }
        } else {
            None
        }
    }

    /// The payload of the pipeline of the track at `index`, for the sink to
    /// play, if the track has a pipeline.
    pub fn payload(&self, index: usize) -> (payload: Option<&Vec<u8>>)
        ensures
            match payload {
                Some(bytes) => {
                    &&& index < self@.pipelines.len()
                    &&& self@.pipelines[index as int] matches Some(p)
                    &&& bytes@ == p.payload
                },
                None => index >= self@.pipelines.len() || self@.pipelines[index as int] is None,
            },
    {
        if index < self.pipelines.len() {
            match &self.pipelines[index] {
                None => None,
                Some(pipeline) => Some(pipeline.payload()),
            }
        } else {
            None
        }
    }

    /// For each result recorded so far, the position of its track.
    pub fn sources(&self) -> (sources: &Vec<usize>)
        ensures
            source_positions(sources@) == self@.sources,
    {
        &self.sources
    }

    /// The results recorded so far, in the order of completion.
    pub fn results(&self) -> (results: &Vec<FetchResult>)
        ensures
            result_views(results@) == self@.results,
    {
        &self.results
    }

    /// Ends the scheduler and hands out its results, in the order of
    /// completion. Of a complete batch there is one for each playable track.
    pub fn into_results(self) -> (results: Vec<FetchResult>)
        requires
            self.wf(),
        ensures
            result_views(results@) == self@.results,
            self@.done() ==> results.len() == playable_count(self@.tracks),
    {
        proof {
            lemma_results_when_done(self@);
        }
        self.results
    }
}

} // verus!
