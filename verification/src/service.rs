//! One query: from the answer of the search service to the batch, and from
//! the results of the batch to their tally.

use crate::limit::{effective_limit, limit_or_default};
use crate::fetch::{is_success, is_success_status};
use crate::retry::RetryPolicy;
use crate::scheduler::{initial_schedule, ConcurrencyScheduler};
use crate::track::{track_views, FetchResult, FetchResultView, TrackDescriptor, TrackView, result_views};
use vstd::prelude::*;

verus! {

/// Why a query came to nothing.
#[derive(Clone, Copy, Debug, PartialEq, Eq)]
pub enum QueryError {
    /// The search service gave no answer.
    Unreachable,
    /// The search service answered with a status outside 200..=299.
    Status(u16),
    /// The answer of the search service could not be read as a track list.
    Malformed,
}

/// What the search service came back with.
#[derive(Clone, Debug, PartialEq, Eq)]
pub enum SearchReply {
    /// No answer came.
    NoResponse,
    /// The service answered; `tracks` is the track list of the body, or
    /// `None` where the body holds none.
    Response { status: u16, tracks: Option<Vec<TrackDescriptor>> },
}

/// The mathematical content of a [`SearchReply`].
pub enum SearchReplyView {
    NoResponse,
    Response { status: u16, tracks: Option<Seq<TrackView>> },
}

impl View for SearchReply {
    type V = SearchReplyView;

    open spec fn view(&self) -> SearchReplyView {
        match self {
            SearchReply::NoResponse => SearchReplyView::NoResponse,
            SearchReply::Response { status, tracks } => SearchReplyView::Response {
                status: *status,
                tracks: match tracks {
                    Some(tracks) => Some(track_views(tracks@)),
                    None => None,
                },
            },
        }
    }
}

/// What a reply counts as: the track list of a successful answer, and an
/// error for anything else. The status is looked at first: the body of an
/// answer with a failing status does not matter.
pub open spec fn accepted(reply: SearchReplyView) -> Result<Seq<TrackView>, QueryError> {
    match reply {
        SearchReplyView::NoResponse => Err(QueryError::Unreachable),
        SearchReplyView::Response { status, tracks } => if !is_success_status(status) {
            Err(QueryError::Status(status))
        } else {
            match tracks {
                Some(tracks) => Ok(tracks),
                None => Err(QueryError::Malformed),
            }
        },
    }
}

/// Reads the reply of the search service: see [`accepted`].
pub fn accept(reply: SearchReply) -> (result: Result<Vec<TrackDescriptor>, QueryError>)
    ensures
        match result {
            Ok(tracks) => accepted(reply@) == Ok::<Seq<TrackView>, QueryError>(track_views(tracks@)),
            Err(error) => accepted(reply@) == Err::<Seq<TrackView>, QueryError>(error),
        },
{
    match reply {
        SearchReply::NoResponse => Err(QueryError::Unreachable),
        SearchReply::Response { status, tracks } => if !is_success(status) {
            Err(QueryError::Status(status))
        } else {
            match tracks {
                Some(tracks) => Ok(tracks),
                None => Err(QueryError::Malformed),
            }
        },
    }
}

/// How a batch went: the number of tracks played and the number failed.
#[derive(Clone, Copy, Debug, PartialEq, Eq)]
pub struct Summary {
    pub succeeded: usize,
    pub failed: usize,
}

/// The number of successes among `results`.
pub open spec fn count_successes(results: Seq<FetchResultView>) -> nat
    decreases results.len(),
{
    if results.len() == 0 {
        0
    } else {
        count_successes(results.drop_last()) + if results.last().outcome is Success {
            1nat
        } else {
            0nat
        }
    }
}

/// Tallies the results of a batch. Every result counts once, as a success
/// or as a failure.
pub fn summarize(results: &Vec<FetchResult>) -> (summary: Summary)
    ensures
        summary.succeeded == count_successes(result_views(results@)),
        summary.succeeded + summary.failed == results.len(),
{
    let ghost views = result_views(results@);
    let mut succeeded: usize = 0;
    let mut failed: usize = 0;
    let mut i: usize = 0;
    while i < results.len()
        invariant
            i <= results.len(),
            views == result_views(results@),
            succeeded == count_successes(views.take(i as int)),
            succeeded + failed == i,
        decreases results.len() - i,
    {
        proof {
            assert(views.take(i + 1).drop_last() =~= views.take(i as int));
            assert(views.take(i + 1).last() == results@[i as int]@);
        }
        if results[i].outcome.is_success() {
            succeeded = succeeded + 1;
        } else {
            failed = failed + 1;
        }
        i = i + 1;
    }
    proof {
        assert(views.take(i as int) =~= views);
    }
    Summary { succeeded, failed }
}

/// The service of one query: it turns the reply of the search service into
/// a batch, or into the error that ends the query.
#[derive(Clone, Copy, Debug, PartialEq, Eq)]
pub struct RecommendationService {
    limit: usize,
    policy: RetryPolicy,
}

/// The mathematical content of a [`RecommendationService`].
pub struct ServiceView {
    /// The number of pipelines that a batch of the service runs at once.
    pub limit: nat,
    /// The base delay of the service's retry policy.
    pub base: nat,
}

impl View for RecommendationService {
    type V = ServiceView;

    closed spec fn view(&self) -> ServiceView {
        ServiceView { limit: self.limit as nat, base: self.policy.base_delay_ms as nat }
    }
}

impl RecommendationService {
    /// The limit is positive.
    pub open spec fn wf(&self) -> bool {
        self@.limit >= 1
    }

    /// A service that runs as many pipelines at once as `requested` stands
    /// for (the default where it is absent or zero), with downloads retried
    /// by `policy`.
    pub fn new(requested: Option<usize>, policy: RetryPolicy) -> (service: RecommendationService)
        ensures
            service.wf(),
            service@.limit == limit_or_default(requested),
            service@.base == policy.base_delay_ms,
    {
        RecommendationService { limit: effective_limit(requested), policy }
    }

    /// The number of pipelines that a batch of this service runs at once.
    pub fn limit(&self) -> (limit: usize)
        ensures
            limit == self@.limit,
    {
        self.limit
    }

    /// Turns the reply of the search service into the batch to play.
    ///
    /// A reply that is no successful answer with a track list ends the
    /// query with its error, and no batch exists. Otherwise the batch holds
    /// the tracks of the reply, with nothing started yet.
    pub fn recommend(&self, reply: SearchReply) -> (batch: Result<ConcurrencyScheduler, QueryError>)
        requires
            self.wf(),
        ensures
            match batch {
                Ok(scheduler) => {
                    &&& scheduler.wf()
                    &&& accepted(reply@) matches Ok(tracks)
                    &&& scheduler@ == initial_schedule(tracks, self@.limit, self@.base)
                },
                Err(error) => accepted(reply@) == Err::<Seq<TrackView>, QueryError>(error),
            },
    {
        match accept(reply) {
            Ok(tracks) => Ok(ConcurrencyScheduler::new(tracks, self.limit, self.policy)),
            Err(error) => Err(error),
        }
    }
}

} // verus!
