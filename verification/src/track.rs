//! Tracks, and what becomes of them.

use vstd::prelude::*;

verus! {

/// One track as the search service describes it.
#[derive(Clone, Debug, PartialEq, Eq)]
pub struct TrackDescriptor {
    pub name: String,
    pub preview_url: Option<String>,
}

/// The mathematical content of a [`TrackDescriptor`].
pub struct TrackView {
    pub name: Seq<char>,
    pub preview_url: Option<Seq<char>>,
}

impl TrackView {
    /// A track is playable when it has a preview URL.
    pub open spec fn is_playable(self) -> bool {
        self.preview_url is Some
    }
}

impl View for TrackDescriptor {
    type V = TrackView;

    open spec fn view(&self) -> TrackView {
        TrackView {
            name: self.name@,
            preview_url: match self.preview_url {
                Some(url) => Some(url@),
                None => None,
            },
        }
    }
}

impl TrackDescriptor {
    /// Tells whether the track has a preview URL.
    pub fn is_playable(&self) -> (playable: bool)
        ensures
            playable == self@.is_playable(),
    {
        self.preview_url.is_some()
    }
}

/// The tracks in `tracks`, each by its content.
pub open spec fn track_views(tracks: Seq<TrackDescriptor>) -> Seq<TrackView> {
    Seq::new(tracks.len(), |i: int| tracks[i]@)
}

/// The number of playable tracks in `tracks`.
pub open spec fn playable_count(tracks: Seq<TrackView>) -> nat
    decreases tracks.len(),
{
    if tracks.len() == 0 {
        0
    } else {
        playable_count(tracks.drop_last()) + if tracks.last().is_playable() {
            1nat
        } else {
            0nat
        }
    }
}

/// Why a single download attempt failed.
#[derive(Clone, Copy, Debug, PartialEq, Eq)]
pub enum FetchError {
    /// The server answered with a status outside 200..=299.
    Http { status: u16 },
    /// No answer came: the request timed out or the connection failed.
    Transient,
}

impl FetchError {
    /// Only a transient error is worth another attempt.
    pub open spec fn is_retryable(self) -> bool {
        self is Transient
    }

    /// Tells whether another attempt may succeed where this one failed.
    pub fn retryable(&self) -> (retryable: bool)
        ensures
            retryable == self.is_retryable(),
    {
        match self {
            FetchError::Transient => true,
            FetchError::Http { .. } => false,
        }
    }
}

/// Why a downloaded preview could not be played.
#[derive(Clone, Copy, Debug, PartialEq, Eq)]
pub enum PlaybackError {
    /// The payload is not audio that the sink can decode.
    Decode,
    /// The output device is not available.
    Device,
}

/// Why a track ended without being played.
#[derive(Clone, Copy, Debug, PartialEq, Eq)]
pub enum ErrorKind {
    /// The download failed for good; the error is the last one observed.
    TerminalFetch(FetchError),
    /// The payload could not be decoded.
    Decode,
    /// The output device failed.
    Device,
}

impl ErrorKind {
    /// The failure kind that a playback error is recorded as.
    pub open spec fn of_playback(error: PlaybackError) -> ErrorKind {
        match error {
            PlaybackError::Decode => ErrorKind::Decode,
            PlaybackError::Device => ErrorKind::Device,
        }
    }

    /// Records a playback error as a failure kind.
    pub fn from_playback(error: PlaybackError) -> (kind: ErrorKind)
        ensures
            kind == Self::of_playback(error),
    {
        match error {
            PlaybackError::Decode => ErrorKind::Decode,
            PlaybackError::Device => ErrorKind::Device,
        }
    }
}

/// How the pipeline of one track ended.
#[derive(Clone, Debug, PartialEq, Eq)]
pub enum Outcome {
    /// The preview was downloaded and played; the payload is kept.
    Success(Vec<u8>),
    /// The track failed, in the download or in playback.
    Failure(ErrorKind),
}

/// The mathematical content of an [`Outcome`].
pub enum OutcomeView {
    Success(Seq<u8>),
    Failure(ErrorKind),
}

impl View for Outcome {
    type V = OutcomeView;

    open spec fn view(&self) -> OutcomeView {
        match self {
            Outcome::Success(bytes) => OutcomeView::Success(bytes@),
            Outcome::Failure(kind) => OutcomeView::Failure(*kind),
        }
    }
}

impl Outcome {
    /// A copy of the outcome, payload included.
    pub fn duplicate(&self) -> (copy: Outcome)
        ensures
            copy@ == self@,
    {
        match self {
            Outcome::Success(bytes) => {
                let copy = bytes.clone();
                assert(copy@ =~= bytes@);
                Outcome::Success(copy)
            },
            Outcome::Failure(kind) => Outcome::Failure(*kind),
        }
    }

    /// Tells whether the track was played.
    pub fn is_success(&self) -> (success: bool)
        ensures
            success == (self@ is Success),
    {
        match self {
            Outcome::Success(_) => true,
            Outcome::Failure(_) => false,
        }
    }
}

/// The result of one playable track.
#[derive(Clone, Debug, PartialEq, Eq)]
pub struct FetchResult {
    pub track_name: String,
    pub outcome: Outcome,
}

/// The mathematical content of a [`FetchResult`].
pub struct FetchResultView {
    pub track_name: Seq<char>,
    pub outcome: OutcomeView,
}

impl View for FetchResult {
    type V = FetchResultView;

    open spec fn view(&self) -> FetchResultView {
        FetchResultView { track_name: self.track_name@, outcome: self.outcome@ }
    }
}

/// The results in `results`, each by its content.
pub open spec fn result_views(results: Seq<FetchResult>) -> Seq<FetchResultView> {
    Seq::new(results.len(), |i: int| results[i]@)
}

} // verus!
