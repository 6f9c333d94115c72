use preview_player::fetch::AttemptReport;
use preview_player::pipeline::{Action, Event, Pipeline, Stage};
use preview_player::retry::RetryPolicy;
use preview_player::track::{ErrorKind, FetchError, Outcome, PlaybackError};

const URL: &str = "https://previews.example/a.mp3";

fn started() -> Pipeline {
    let mut pipeline = Pipeline::new(URL.to_string(), &RetryPolicy::new(10));
    pipeline.step(Event::Started);
    pipeline
}

fn fetched(body: &[u8]) -> Pipeline {
    let mut pipeline = started();
    pipeline.step(answered(200, body, 0));
    pipeline
}

fn playing(body: &[u8]) -> Pipeline {
    let mut pipeline = fetched(body);
    pipeline.step(Event::PlaybackStarted);
    pipeline
}

fn answered(status: u16, body: &[u8], sample: u64) -> Event {
    Event::FetchReported { report: AttemptReport::Response { status, body: body.to_vec() }, sample }
}

fn unanswered(sample: u64) -> Event {
    Event::FetchReported { report: AttemptReport::NoResponse, sample }
}

fn fetch(attempt: u32, after_ms: u64) -> Action {
    Action::Fetch { url: URL.to_string(), attempt, after_ms }
}

#[test]
fn new_pipeline_is_pending() {
    let pipeline = Pipeline::new(URL.to_string(), &RetryPolicy::new(10));
    assert_eq!(pipeline.stage(), Stage::Pending);
    assert_eq!(pipeline.url(), URL);
    assert!(pipeline.payload().is_empty());
    assert_eq!(pipeline.attempts(), 1);
    assert!(!pipeline.stage().finished());
}

#[test]
fn start_asks_for_the_first_attempt_without_a_wait() {
    let mut pipeline = Pipeline::new(URL.to_string(), &RetryPolicy::new(10));
    assert_eq!(pipeline.step(Event::Started), fetch(1, 0));
    assert_eq!(pipeline.stage(), Stage::Fetching);
}

#[test]
fn successful_download_is_played_and_ends_in_success() {
    let mut pipeline = started();
    assert_eq!(pipeline.step(answered(200, b"RIFF", 3)), Action::Play);
    assert_eq!(pipeline.stage(), Stage::Fetched);
    assert_eq!(pipeline.payload().as_slice(), b"RIFF");
    assert_eq!(pipeline.step(Event::PlaybackStarted), Action::Await);
    assert_eq!(pipeline.stage(), Stage::Playing);
    assert_eq!(pipeline.payload().as_slice(), b"RIFF");
    assert_eq!(
        pipeline.step(Event::PlaybackEnded),
        Action::Finish { outcome: Outcome::Success(b"RIFF".to_vec()) }
    );
    assert_eq!(pipeline.stage(), Stage::Played);
    assert!(pipeline.stage().finished());
    assert!(pipeline.payload().is_empty());
}

#[test]
fn forbidden_download_fails_at_once() {
    let mut pipeline = started();
    assert_eq!(
        pipeline.step(answered(403, b"denied", 9)),
        Action::Finish { outcome: Outcome::Failure(ErrorKind::TerminalFetch(FetchError::Http { status: 403 })) }
    );
    assert_eq!(pipeline.stage(), Stage::FetchFailed);
    assert_eq!(pipeline.attempts(), 1);
    assert!(pipeline.payload().is_empty());
}

#[test]
fn missing_download_fails_at_once() {
    let mut pipeline = started();
    assert_eq!(
        pipeline.step(answered(404, b"", 0)),
        Action::Finish { outcome: Outcome::Failure(ErrorKind::TerminalFetch(FetchError::Http { status: 404 })) }
    );
    assert_eq!(pipeline.attempts(), 1);
}

#[test]
fn unanswered_download_is_retried_twice_then_fails() {
    let mut pipeline = started();
    assert_eq!(pipeline.step(unanswered(7)), fetch(2, 17));
    assert_eq!(pipeline.stage(), Stage::Fetching);
    assert_eq!(pipeline.step(unanswered(45)), fetch(3, 25));
    assert_eq!(pipeline.stage(), Stage::Fetching);
    assert_eq!(
        pipeline.step(unanswered(1)),
        Action::Finish { outcome: Outcome::Failure(ErrorKind::TerminalFetch(FetchError::Transient)) }
    );
    assert_eq!(pipeline.stage(), Stage::FetchFailed);
    assert_eq!(pipeline.attempts(), 3);
}

#[test]
fn download_that_succeeds_on_the_third_attempt_is_played() {
    let mut pipeline = started();
    assert_eq!(pipeline.step(unanswered(0)), fetch(2, 10));
    assert_eq!(pipeline.step(unanswered(0)), fetch(3, 20));
    assert_eq!(pipeline.step(answered(200, b"late", 0)), Action::Play);
    assert_eq!(pipeline.stage(), Stage::Fetched);
    assert_eq!(pipeline.payload().as_slice(), b"late");
}

#[test]
fn http_error_after_a_retry_is_final() {
    let mut pipeline = started();
    assert_eq!(pipeline.step(unanswered(3)), fetch(2, 13));
    assert_eq!(
        pipeline.step(answered(500, b"", 3)),
        Action::Finish { outcome: Outcome::Failure(ErrorKind::TerminalFetch(FetchError::Http { status: 500 })) }
    );
    assert_eq!(pipeline.attempts(), 2);
}

#[test]
fn payload_that_cannot_be_decoded_fails_the_track() {
    let mut pipeline = playing(b"not audio");
    assert_eq!(
        pipeline.step(Event::PlaybackFailed(PlaybackError::Decode)),
        Action::Finish { outcome: Outcome::Failure(ErrorKind::Decode) }
    );
    assert_eq!(pipeline.stage(), Stage::PlayFailed);
}

#[test]
fn device_fault_fails_the_track() {
    let mut pipeline = playing(b"audio");
    assert_eq!(
        pipeline.step(Event::PlaybackFailed(PlaybackError::Device)),
        Action::Finish { outcome: Outcome::Failure(ErrorKind::Device) }
    );
    assert_eq!(pipeline.stage(), Stage::PlayFailed);
}

#[test]
fn playback_errors_map_to_their_kinds() {
    assert_eq!(ErrorKind::from_playback(PlaybackError::Decode), ErrorKind::Decode);
    assert_eq!(ErrorKind::from_playback(PlaybackError::Device), ErrorKind::Device);
}

#[test]
fn event_out_of_turn_is_ignored() {
    let mut pending = Pipeline::new(URL.to_string(), &RetryPolicy::new(10));
    let before = pending.clone();
    for event in [answered(200, b"x", 0), unanswered(0), Event::PlaybackStarted, Event::PlaybackEnded,
        Event::PlaybackFailed(PlaybackError::Device)]
    {
        assert_eq!(pending.step(event), Action::Ignored);
        assert_eq!(pending, before);
    }
    let mut fetching = started();
    let before = fetching.clone();
    for event in [Event::Started, Event::PlaybackStarted, Event::PlaybackEnded,
        Event::PlaybackFailed(PlaybackError::Decode)]
    {
        assert_eq!(fetching.step(event), Action::Ignored);
        assert_eq!(fetching, before);
    }
    let mut ready = fetched(b"x");
    let before = ready.clone();
    for event in [Event::Started, unanswered(0), Event::PlaybackEnded, Event::PlaybackFailed(PlaybackError::Decode)] {
        assert_eq!(ready.step(event), Action::Ignored);
        assert_eq!(ready, before);
    }
    let mut sounding = playing(b"x");
    let before = sounding.clone();
    for event in [Event::Started, unanswered(0), answered(200, b"y", 0), Event::PlaybackStarted] {
        assert_eq!(sounding.step(event), Action::Ignored);
        assert_eq!(sounding, before);
    }
}

#[test]
fn ended_pipeline_ignores_every_event() {
    let mut played = playing(b"x");
    played.step(Event::PlaybackEnded);
    let mut failed = started();
    failed.step(answered(403, b"", 0));
    let mut broken = playing(b"x");
    broken.step(Event::PlaybackFailed(PlaybackError::Decode));
    for pipeline in [&mut played, &mut failed, &mut broken] {
        let before = pipeline.clone();
        for event in [Event::Started, unanswered(0), answered(200, b"y", 0), Event::PlaybackStarted,
            Event::PlaybackEnded, Event::PlaybackFailed(PlaybackError::Device)]
        {
            assert_eq!(pipeline.step(event), Action::Ignored);
            assert_eq!(*pipeline, before);
        }
    }
}

#[test]
fn randomly_jittered_retry_waits_within_bounds() {
    for _ in 0..100 {
        let mut pipeline = started();
        match pipeline.report_fetch(AttemptReport::NoResponse) {
            Action::Fetch { url, attempt, after_ms } => {
                assert_eq!(url, URL);
                assert_eq!(attempt, 2);
                assert!(10 <= after_ms && after_ms < 20);
            }
            other => panic!("unexpected action {:?}", other),
        }
        match pipeline.report_fetch(AttemptReport::NoResponse) {
            Action::Fetch { attempt, after_ms, .. } => {
                assert_eq!(attempt, 3);
                assert!(20 <= after_ms && after_ms < 40);
            }
            other => panic!("unexpected action {:?}", other),
        }
        assert_eq!(
            pipeline.report_fetch(AttemptReport::NoResponse),
            Action::Finish { outcome: Outcome::Failure(ErrorKind::TerminalFetch(FetchError::Transient)) }
        );
    }
}

#[test]
fn randomly_jittered_report_of_success_is_played() {
    let mut pipeline = started();
    assert_eq!(
        pipeline.report_fetch(AttemptReport::Response { status: 200, body: b"ok".to_vec() }),
        Action::Play
    );
    assert_eq!(pipeline.payload().as_slice(), b"ok");
}

#[test]
fn stages_are_pending_active_or_ended() {
    let stages = [
        Stage::Pending,
        Stage::Fetching,
        Stage::FetchFailed,
        Stage::Fetched,
        Stage::Playing,
        Stage::PlayFailed,
        Stage::Played,
    ];
    let pending: Vec<bool> = stages.iter().map(|stage| stage.pending()).collect();
    let active: Vec<bool> = stages.iter().map(|stage| stage.active()).collect();
    let finished: Vec<bool> = stages.iter().map(|stage| stage.finished()).collect();
    assert_eq!(pending, vec![true, false, false, false, false, false, false]);
    assert_eq!(active, vec![false, true, false, true, true, false, false]);
    assert_eq!(finished, vec![false, false, true, false, false, true, true]);
}
