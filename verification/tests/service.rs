use preview_player::fetch::AttemptReport;
use preview_player::pipeline::{Action, Event};
use preview_player::retry::RetryPolicy;
use preview_player::scheduler::Slot;
use preview_player::service::{accept, summarize, QueryError, RecommendationService, SearchReply, Summary};
use preview_player::track::{ErrorKind, FetchError, FetchResult, Outcome, TrackDescriptor};

fn track(name: &str, url: Option<&str>) -> TrackDescriptor {
    TrackDescriptor { name: name.to_string(), preview_url: url.map(|url| url.to_string()) }
}

fn service() -> RecommendationService {
    RecommendationService::new(None, RetryPolicy::standard())
}

#[test]
fn failing_search_ends_the_query_without_a_batch() {
    let reply = SearchReply::Response { status: 500, tracks: None };
    assert_eq!(accept(reply.clone()), Err(QueryError::Status(500)));
    match service().recommend(reply) {
        Err(error) => assert_eq!(error, QueryError::Status(500)),
        Ok(_) => panic!("a batch was made of a failed search"),
    }
}

#[test]
fn failing_status_wins_over_a_readable_body() {
    let reply = SearchReply::Response { status: 401, tracks: Some(vec![track("a", Some("u"))]) };
    assert_eq!(accept(reply.clone()), Err(QueryError::Status(401)));
    assert!(service().recommend(reply).is_err());
}

#[test]
fn unreachable_search_ends_the_query() {
    assert_eq!(accept(SearchReply::NoResponse), Err(QueryError::Unreachable));
    match service().recommend(SearchReply::NoResponse) {
        Err(error) => assert_eq!(error, QueryError::Unreachable),
        Ok(_) => panic!("a batch was made of no answer"),
    }
}

#[test]
fn unreadable_answer_ends_the_query() {
    let reply = SearchReply::Response { status: 200, tracks: None };
    assert_eq!(accept(reply.clone()), Err(QueryError::Malformed));
    match service().recommend(reply) {
        Err(error) => assert_eq!(error, QueryError::Malformed),
        Ok(_) => panic!("a batch was made of an unreadable answer"),
    }
}

#[test]
fn successful_search_yields_its_tracks() {
    let tracks = vec![track("a", Some("u")), track("b", None)];
    let reply = SearchReply::Response { status: 200, tracks: Some(tracks.clone()) };
    assert_eq!(accept(reply), Ok(tracks));
    assert_eq!(accept(SearchReply::Response { status: 200, tracks: Some(Vec::new()) }), Ok(Vec::new()));
}

#[test]
fn successful_search_becomes_a_batch_with_nothing_started() {
    let tracks = vec![track("a", Some("u")), track("b", None), track("c", Some("w"))];
    let reply = SearchReply::Response { status: 200, tracks: Some(tracks.clone()) };
    let scheduler = match RecommendationService::new(Some(2), RetryPolicy::new(30)).recommend(reply) {
        Ok(scheduler) => scheduler,
        Err(error) => panic!("the search was refused: {:?}", error),
    };
    assert_eq!(scheduler.tracks(), &tracks);
    assert_eq!(scheduler.limit(), 2);
    assert_eq!(scheduler.in_flight(), 0);
    assert_eq!(scheduler.queued(), 2);
    assert_eq!(scheduler.slot(0), Some(Slot::Queued));
    assert_eq!(scheduler.slot(1), Some(Slot::Skipped));
    assert!(scheduler.results().is_empty());
}

#[test]
fn batch_retries_by_the_policy_of_the_service() {
    let reply = SearchReply::Response { status: 200, tracks: Some(vec![track("a", Some("u"))]) };
    let mut scheduler = match RecommendationService::new(None, RetryPolicy::new(30)).recommend(reply) {
        Ok(scheduler) => scheduler,
        Err(error) => panic!("the search was refused: {:?}", error),
    };
    assert_eq!(
        scheduler.start_next().map(|dispatch| dispatch.action),
        Some(Action::Fetch { url: "u".to_string(), attempt: 1, after_ms: 0 })
    );
    assert_eq!(
        scheduler.report(0, Event::FetchReported { report: AttemptReport::NoResponse, sample: 4 }),
        Action::Fetch { url: "u".to_string(), attempt: 2, after_ms: 34 }
    );
}

#[test]
fn service_limit_defaults_to_five() {
    assert_eq!(RecommendationService::new(None, RetryPolicy::standard()).limit(), 5);
    assert_eq!(RecommendationService::new(Some(0), RetryPolicy::standard()).limit(), 5);
    assert_eq!(RecommendationService::new(Some(1), RetryPolicy::standard()).limit(), 1);
    assert_eq!(RecommendationService::new(Some(64), RetryPolicy::standard()).limit(), 64);
}

#[test]
fn summary_counts_every_result_once() {
    let results = vec![
        FetchResult { track_name: "a".to_string(), outcome: Outcome::Success(b"x".to_vec()) },
        FetchResult { track_name: "b".to_string(), outcome: Outcome::Failure(ErrorKind::Decode) },
        FetchResult { track_name: "c".to_string(), outcome: Outcome::Success(Vec::new()) },
        FetchResult {
            track_name: "d".to_string(),
            outcome: Outcome::Failure(ErrorKind::TerminalFetch(FetchError::Transient)),
        },
        FetchResult { track_name: "e".to_string(), outcome: Outcome::Failure(ErrorKind::Device) },
    ];
    assert_eq!(summarize(&results), Summary { succeeded: 2, failed: 3 });
}

#[test]
fn summary_of_nothing_is_zero() {
    assert_eq!(summarize(&Vec::new()), Summary { succeeded: 0, failed: 0 });
}

#[test]
fn playable_is_having_a_preview_url() {
    assert!(track("a", Some("u")).is_playable());
    assert!(track("a", Some("")).is_playable());
    assert!(!track("a", None).is_playable());
}
