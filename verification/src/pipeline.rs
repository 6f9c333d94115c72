//! The pipeline of one track: download with retry, then playback.
//!
//! A [`Pipeline`] performs no work itself. Each [`Event`] that the caller
//! reports moves it to its next [`Stage`] and yields the [`Action`] that the
//! caller is to perform next.

use crate::fetch::{classified, classify, is_success_status, AttemptReport, AttemptReportView};
use crate::retry::{
    after_failure, initial, jittered_delay, lemma_retry_step, valid, RetryPolicy, RetryState, RetryStep,
    RetryStepView, RetryView, MAX_ATTEMPTS,
};
use crate::track::{ErrorKind, FetchError, Outcome, OutcomeView, PlaybackError};
use vstd::prelude::*;

verus! {

/// Where a pipeline stands.
#[derive(Clone, Copy, Debug, PartialEq, Eq)]
pub enum Stage {
    /// Queued: no concurrency permit has been acquired yet.
    Pending,
    /// A download attempt is running, or a retry is being waited for.
    Fetching,
    /// The download failed for good.
    FetchFailed,
    /// The payload is in hand and playback has not begun.
    Fetched,
    /// The payload is being played.
    Playing,
    /// Playback failed.
    PlayFailed,
    /// The payload was played to its end.
    Played,
}

impl Stage {
    /// The stages in which a pipeline holds a concurrency permit.
    pub open spec fn is_active(self) -> bool {
        self is Fetching || self is Fetched || self is Playing
    }

    /// The stages that a pipeline never leaves.
    pub open spec fn is_final(self) -> bool {
        self is FetchFailed || self is PlayFailed || self is Played
    }

    /// Tells whether the pipeline waits for a concurrency permit.
    pub fn pending(&self) -> (pending: bool)
        ensures
            pending == (self is Pending),
    {
        match self {
            Stage::Pending => true,
            _ => false,
        }
    }

    /// Tells whether the pipeline holds a concurrency permit.
    pub fn active(&self) -> (active: bool)
        ensures
            active == self.is_active(),
    {
        match self {
            Stage::Fetching | Stage::Fetched | Stage::Playing => true,
            _ => false,
        }
    }

    /// Tells whether the pipeline has ended.
    pub fn finished(&self) -> (finished: bool)
        ensures
            finished == self.is_final(),
    {
        match self {
            Stage::FetchFailed | Stage::PlayFailed | Stage::Played => true,
            _ => false,
        }
    }
}

/// What the caller reports to a pipeline.
#[derive(Clone, Debug, PartialEq, Eq)]
pub enum Event {
    /// A concurrency permit was acquired for the pipeline.
    Started,
    /// A download attempt ended; `sample` is the random sample for the
    /// jitter of the wait that follows if the attempt is retried.
    FetchReported { report: AttemptReport, sample: u64 },
    /// The sink took the payload and playback began.
    PlaybackStarted,
    /// Playback reached the end of the payload.
    PlaybackEnded,
    /// The payload could not be decoded, or the device failed.
    PlaybackFailed(PlaybackError),
}

/// The mathematical content of an [`Event`].
pub enum EventView {
    Started,
    FetchReported { report: AttemptReportView, sample: nat },
    PlaybackStarted,
    PlaybackEnded,
    PlaybackFailed(PlaybackError),
}

impl View for Event {
    type V = EventView;

    open spec fn view(&self) -> EventView {
        match self {
            Event::Started => EventView::Started,
            Event::FetchReported { report, sample } => EventView::FetchReported {
                report: report@,
                sample: *sample as nat,
            },
            Event::PlaybackStarted => EventView::PlaybackStarted,
            Event::PlaybackEnded => EventView::PlaybackEnded,
            Event::PlaybackFailed(error) => EventView::PlaybackFailed(*error),
        }
    }
}

/// What the caller is to do next for a pipeline.
#[derive(Clone, Debug, PartialEq, Eq)]
pub enum Action {
    /// The event does not apply in the pipeline's stage; nothing changed.
    Ignored,
    /// Nothing to do but to report the next event.
    Await,
    /// Wait `after_ms` milliseconds, GET `url`, and report what came back.
    /// `attempt` is the number of this attempt, from 1.
    Fetch { url: String, attempt: u32, after_ms: u64 },
    /// Play the pipeline's payload and report how it went.
    Play,
    /// The pipeline has ended with `outcome`.
    Finish { outcome: Outcome },
}

/// The mathematical content of an [`Action`].
pub enum ActionView {
    Ignored,
    Await,
    Fetch { url: Seq<char>, attempt: nat, after: nat },
    Play,
    Finish { outcome: OutcomeView },
}

impl View for Action {
    type V = ActionView;

    open spec fn view(&self) -> ActionView {
        match self {
            Action::Ignored => ActionView::Ignored,
            Action::Await => ActionView::Await,
            Action::Fetch { url, attempt, after_ms } => ActionView::Fetch {
                url: url@,
                attempt: *attempt as nat,
                after: *after_ms as nat,
            },
            Action::Play => ActionView::Play,
            Action::Finish { outcome } => ActionView::Finish { outcome: outcome@ },
        }
    }
}

/// The fetch-then-play pipeline of one track.
#[derive(Clone, Debug, PartialEq, Eq)]
pub struct Pipeline {
    url: String,
    stage: Stage,
    retry: RetryState<FetchError>,
    payload: Vec<u8>,
}

/// The mathematical content of a [`Pipeline`].
pub struct PipelineView {
    /// The preview URL that the pipeline downloads.
    pub url: Seq<char>,
    /// Where the pipeline stands.
    pub stage: Stage,
    /// The retry state of the download.
    pub retry: RetryView<FetchError>,
    /// The downloaded payload; empty before the download succeeds and after
    /// the payload has left with the outcome.
    pub payload: Seq<u8>,
}

/// A pipeline that has not started, for `url` and a policy with base delay
/// `base`.
pub open spec fn fresh(url: Seq<char>, base: nat) -> PipelineView {
    PipelineView { url, stage: Stage::Pending, retry: initial(base), payload: Seq::empty() }
}

/// The transition function of a pipeline: the state and the action that
/// follow `event` in state `p`.
///
/// - `Pending`, on `Started`: `Fetching`, with the first download attempt.
/// - `Fetching`, on a successful attempt: `Fetched`, with the payload kept
///   and `Play` as the action.
/// - `Fetching`, on a failed attempt: the retry state decides. The pipeline
///   stays in `Fetching` with the next attempt after the wait, or moves to
///   `FetchFailed` and ends with the error.
/// - `Fetched`, on `PlaybackStarted`: `Playing`.
/// - `Playing`, on `PlaybackEnded`: `Played`, ending in success with the
///   payload.
/// - `Playing`, on `PlaybackFailed`: `PlayFailed`, ending with the error.
/// - Any other event is ignored and changes nothing.
pub open spec fn step_model(p: PipelineView, event: EventView) -> (PipelineView, ActionView) {
    match (p.stage, event) {
        (Stage::Pending, EventView::Started) => (
            PipelineView { stage: Stage::Fetching, ..p },
            ActionView::Fetch { url: p.url, attempt: p.retry.attempts, after: 0 },
        ),
        (Stage::Fetching, EventView::FetchReported { report, sample }) => match classified(report) {
            Ok(body) => (PipelineView { stage: Stage::Fetched, payload: body, ..p }, ActionView::Play),
            Err(error) => match after_failure(p.retry, error, error.is_retryable(), sample) {
                RetryStepView::Retry { wait, state } => (
                    PipelineView { retry: state, ..p },
                    ActionView::Fetch { url: p.url, attempt: state.attempts, after: wait },
                ),
                RetryStepView::GiveUp { error, .. } => (
                    PipelineView { stage: Stage::FetchFailed, ..p },
                    ActionView::Finish {
                        outcome: OutcomeView::Failure(ErrorKind::TerminalFetch(error)),
                    },
                ),
            },
        },
        (Stage::Fetched, EventView::PlaybackStarted) => (
            PipelineView { stage: Stage::Playing, ..p },
            ActionView::Await,
        ),
        (Stage::Playing, EventView::PlaybackEnded) => (
            PipelineView { stage: Stage::Played, payload: Seq::empty(), ..p },
            ActionView::Finish { outcome: OutcomeView::Success(p.payload) },
        ),
        (Stage::Playing, EventView::PlaybackFailed(error)) => (
            PipelineView { stage: Stage::PlayFailed, ..p },
            ActionView::Finish { outcome: OutcomeView::Failure(ErrorKind::of_playback(error)) },
        ),
        _ => (p, ActionView::Ignored),
    }
}

impl View for Pipeline {
    type V = PipelineView;

    closed spec fn view(&self) -> PipelineView {
        PipelineView { url: self.url@, stage: self.stage, retry: self.retry@, payload: self.payload@ }
    }
}

impl Pipeline {
    /// The pipeline's retry state is valid.
    pub open spec fn wf(&self) -> bool {
        valid(self@.retry)
    }

    /// A pipeline for the preview at `url`, not yet started.
    pub fn new(url: String, policy: &RetryPolicy) -> (pipeline: Pipeline)
        ensures
            pipeline.wf(),
            pipeline@ == fresh(url@, policy.base_delay_ms as nat),
    {
        Pipeline { url, stage: Stage::Pending, retry: policy.begin(), payload: Vec::new() }
    }

    /// Where the pipeline stands.
    pub fn stage(&self) -> (stage: Stage)
        ensures
            stage == self@.stage,
    {
        self.stage
    }

    /// The preview URL that the pipeline downloads.
    pub fn url(&self) -> (url: &String)
        ensures
            url@ == self@.url,
    {
        &self.url
    }

    /// The downloaded payload, for the sink to play.
    pub fn payload(&self) -> (payload: &Vec<u8>)
        ensures
            payload@ == self@.payload,
    {
        &self.payload
    }

    /// The number of the download attempt that is running or about to run,
    /// from 1.
    pub fn attempts(&self) -> (attempts: u32)
        ensures
            attempts == self@.retry.attempts,
    {
        self.retry.attempts()
    }

    /// Takes `event` and moves the pipeline on: see [`step_model`].
    pub fn step(&mut self, event: Event) -> (action: Action)
        requires
            old(self).wf(),
        ensures
            final(self).wf(),
            (final(self)@, action@) == step_model(old(self)@, event@),
    {
        match event {
            Event::Started => match self.stage {
                Stage::Pending => {
                    self.stage = Stage::Fetching;
                    Action::Fetch { url: self.url.clone(), attempt: self.retry.attempts(), after_ms: 0 }
                },
                _ => Action::Ignored,
            },
            Event::FetchReported { report, sample } => match self.stage {
                Stage::Fetching => match classify(report) {
                    Ok(body) => {
                        self.payload = body;
                        self.stage = Stage::Fetched;
                        Action::Play
                    },
                    Err(error) => match self.retry.on_failure(error, error.retryable(), sample) {
                        RetryStep::Retry { wait_ms, state } => {
                            let attempt = state.attempts();
                            self.retry = state;
                            Action::Fetch { url: self.url.clone(), attempt, after_ms: wait_ms }
                        },
                        RetryStep::GiveUp { error, .. } => {
                            self.stage = Stage::FetchFailed;
                            Action::Finish {
                                outcome: Outcome::Failure(ErrorKind::TerminalFetch(error)),
                            }
                        },
                    },
                },
                _ => Action::Ignored,
            },
            Event::PlaybackStarted => match self.stage {
                Stage::Fetched => {
                    self.stage = Stage::Playing;
                    Action::Await
                },
                _ => Action::Ignored,
            },
            Event::PlaybackEnded => match self.stage {
                Stage::Playing => {
                    let mut payload: Vec<u8> = Vec::new();
                    core::mem::swap(&mut self.payload, &mut payload);
                    self.stage = Stage::Played;
                    Action::Finish { outcome: Outcome::Success(payload) }
                },
                _ => Action::Ignored,
            },
            Event::PlaybackFailed(error) => match self.stage {
                Stage::Playing => {
                    self.stage = Stage::PlayFailed;
                    Action::Finish { outcome: Outcome::Failure(ErrorKind::from_playback(error)) }
                },
                _ => Action::Ignored,
            },
        }
    }

    /// Draws a random sample for the jitter of the pipeline's next wait. Any
    /// value may come back.
    pub(crate) fn jitter_sample(&self) -> (sample: u64) {
        self.retry.jitter_sample()
    }

    /// Takes the report of a download attempt, with a jitter drawn at random
    /// for the wait that follows if the attempt is retried.
    pub fn report_fetch(&mut self, report: AttemptReport) -> (action: Action)
        requires
            old(self).wf(),
        ensures
            final(self).wf(),
            exists|sample: u64|
                (final(self)@, action@) == step_model(
                    old(self)@,
                    EventView::FetchReported { report: report@, sample: sample as nat },
                ),
    {
        let sample = self.jitter_sample();
        let ghost before = self@;
        let action = self.step(Event::FetchReported { report, sample });
        assert((self@, action@) == step_model(
            before,
            EventView::FetchReported { report: report@, sample: sample as nat },
        ));
        action
    }
}

/// The stages in their order: a pipeline never moves to a lower rank.
pub open spec fn stage_rank(stage: Stage) -> nat {
    match stage {
        Stage::Pending => 0,
        Stage::Fetching => 1,
        Stage::FetchFailed => 2,
        Stage::Fetched => 2,
        Stage::Playing => 3,
        Stage::PlayFailed => 4,
        Stage::Played => 4,
    }
}

/// One stage follows another directly in the life of a pipeline.
pub open spec fn stage_follows(from: Stage, to: Stage) -> bool {
    match (from, to) {
        (Stage::Pending, Stage::Fetching) => true,
        (Stage::Fetching, Stage::FetchFailed) => true,
        (Stage::Fetching, Stage::Fetched) => true,
        (Stage::Fetched, Stage::Playing) => true,
        (Stage::Playing, Stage::PlayFailed) => true,
        (Stage::Playing, Stage::Played) => true,
        _ => false,
    }
}

/// Every step keeps the stage or moves it one edge forward; the URL never
/// changes; the pipeline ends, with a `Finish` action, exactly when it enters
/// a final stage; and an ignored event changes nothing.
pub proof fn lemma_step_follows_stages(p: PipelineView, event: EventView)
    ensures
        ({
            let (next, action) = step_model(p, event);
            &&& next.url == p.url
            &&& next.retry.base == p.retry.base
            &&& next.stage == p.stage || stage_follows(p.stage, next.stage)
            &&& stage_rank(p.stage) <= stage_rank(next.stage)
            &&& action is Finish <==> next.stage.is_final() && !p.stage.is_final()
            &&& action is Ignored ==> next == p
        }),
{
}

/// The most events that a pipeline can still take before it has ended: one
/// to start, one per download attempt that is left, and two for playback.
pub open spec fn steps_left(p: PipelineView) -> nat {
    let downloads = (MAX_ATTEMPTS + 1 - p.retry.attempts) as nat;
    match p.stage {
        Stage::Pending => 1 + downloads + 2,
        Stage::Fetching => downloads + 2,
        Stage::Fetched => 2,
        Stage::Playing => 1,
        _ => 0,
    }
}

/// Every pipeline ends: an event that is not ignored brings the pipeline
/// closer to its end, and no event is left to take exactly when the
/// pipeline has ended.
pub proof fn lemma_step_makes_progress(p: PipelineView, event: EventView)
    requires
        valid(p.retry),
    ensures
        step_model(p, event).1 is Ignored || steps_left(step_model(p, event).0) < steps_left(p),
        p.stage.is_final() <==> steps_left(p) == 0,
{
    if let EventView::FetchReported { report, sample } = event {
        if let Err(error) = classified(report) {
            lemma_retry_step(p.retry, error, error.is_retryable(), sample);
        }
    }
}

/// A pipeline that has ended stays as it is: every event is ignored.
pub proof fn lemma_final_stage_absorbs(p: PipelineView, event: EventView)
    requires
        p.stage.is_final(),
    ensures
        step_model(p, event) == (p, ActionView::Ignored),
{
}

/// No pipeline starts a fourth download: a step keeps the retry state
/// valid, and the attempt that a `Fetch` action asks for is numbered from 1
/// to [`MAX_ATTEMPTS`].
pub proof fn lemma_fetch_attempts_bounded(p: PipelineView, event: EventView)
    requires
        valid(p.retry),
    ensures
        valid(step_model(p, event).0.retry),
        step_model(p, event).1 matches ActionView::Fetch { attempt, .. } ==> 1 <= attempt
            <= MAX_ATTEMPTS,
{
    if let EventView::FetchReported { report, sample } = event {
        if let Err(error) = classified(report) {
            lemma_retry_step(p.retry, error, error.is_retryable(), sample);
        }
    }
}

/// A response with a status outside 200..=299 fails the track at once,
/// without a retry, on whichever attempt it comes.
pub proof fn lemma_http_error_is_final(p: PipelineView, status: u16, body: Seq<u8>, sample: nat)
    requires
        p.stage is Fetching,
        !is_success_status(status),
    ensures
        step_model(
            p,
            EventView::FetchReported { report: AttemptReportView::Response { status, body }, sample },
        ) == (
            PipelineView { stage: Stage::FetchFailed, ..p },
            ActionView::Finish {
                outcome: OutcomeView::Failure(ErrorKind::TerminalFetch(FetchError::Http { status })),
            },
        ),
{
}

/// A download that gets no answer is retried twice and then fails: the
/// first two reports lead to the second and third attempt, the third ends
/// the track with a terminal fetch error.
pub proof fn lemma_unanswered_download_fails_on_third_attempt(
    url: Seq<char>,
    base: nat,
    sample_first: nat,
    sample_second: nat,
    sample_third: nat,
)
    ensures
        ({
            let unanswered = |sample: nat|
                EventView::FetchReported { report: AttemptReportView::NoResponse, sample };
            let (p0, a0) = step_model(fresh(url, base), EventView::Started);
            let (p1, a1) = step_model(p0, unanswered(sample_first));
            let (p2, a2) = step_model(p1, unanswered(sample_second));
            let (p3, a3) = step_model(p2, unanswered(sample_third));
            &&& a0 == ActionView::Fetch { url, attempt: 1, after: 0 }
            &&& a1 == ActionView::Fetch { url, attempt: 2, after: jittered_delay(base, sample_first) }
            &&& a2 == ActionView::Fetch {
                url,
                attempt: 3,
                after: jittered_delay(2 * base, sample_second),
            }
            &&& a3 == ActionView::Finish {
                outcome: OutcomeView::Failure(ErrorKind::TerminalFetch(FetchError::Transient)),
            }
            &&& p3.stage == Stage::FetchFailed
        }),
{
}

} // verus!
