//! Judging what one range request brought back.

use crate::planner::ChunkSpec;
use vstd::prelude::*;

verus! {

/// How one attempt to fetch a chunk ended.
#[derive(Clone, Copy, Debug, PartialEq, Eq, Structural)]
pub enum FetchOutcome {
    /// The server sent partial content of exactly the requested length.
    Success,
    /// The server ignored the range or sent another length than asked for.
    RangeMismatch,
    /// A network-level failure; the attempt may be repeated.
    TransientError,
    /// A failure that repeating the attempt cannot mend.
    FatalError,
}

/// What the transport saw of one range request.
#[derive(Clone, Copy, Debug, PartialEq, Eq, Structural)]
pub enum Response {
    /// The server answered with `code`, and `received` body bytes arrived.
    Status { code: u16, received: usize },
    /// The connection was reset or could not be made.
    ConnectionLost,
    /// The attempt ran past its time limit.
    TimedOut,
    /// The request could not be built from the URL.
    MalformedUrl,
}

impl FetchOutcome {
    /// Whether a chunk that ended this way may be fetched again.
    pub open spec fn spec_is_retryable(self) -> bool {
        self == FetchOutcome::RangeMismatch || self == FetchOutcome::TransientError
    }

    /// Whether a chunk that ended this way may be fetched again.
    pub fn is_retryable(&self) -> (retryable: bool)
        ensures
            retryable == self.spec_is_retryable(),
    {
        match self {
            FetchOutcome::RangeMismatch => true,
            FetchOutcome::TransientError => true,
            FetchOutcome::Success => false,
            FetchOutcome::FatalError => false,
        }
    }
}

/// The outcome that `response` means for `chunk`.
///
/// Status 206 is a success when the chunk is a non-empty range and exactly
/// its length arrived, and a range mismatch otherwise. Status 5xx, a lost
/// connection and a timeout are transient. Status 4xx is fatal, except 416,
/// which is about the range. A malformed URL is fatal. Every other status
/// means that the server did not serve the range.
pub open spec fn outcome_of(chunk: ChunkSpec, response: Response) -> FetchOutcome {
    match response {
        Response::Status { code, received } => {
            if code == 206 {
                if chunk.start_offset <= chunk.end_offset && received == chunk.spec_len() {
                    FetchOutcome::Success
                } else {
                    FetchOutcome::RangeMismatch
                }
            } else if 500 <= code <= 599 {
                FetchOutcome::TransientError
            } else if 400 <= code <= 499 && code != 416 {
                FetchOutcome::FatalError
            } else {
                FetchOutcome::RangeMismatch
            }
        },
        Response::ConnectionLost => FetchOutcome::TransientError,
        Response::TimedOut => FetchOutcome::TransientError,
        Response::MalformedUrl => FetchOutcome::FatalError,
    }
}

/// Classifies what a range request for `chunk` brought back.
pub fn classify(chunk: &ChunkSpec, response: Response) -> (outcome: FetchOutcome)
    ensures
        outcome == outcome_of(*chunk, response),
{
    match response {
        Response::Status { code, received } => {
            if code == 206 {
                if chunk.start_offset <= chunk.end_offset && received > 0 && received - 1
                    == chunk.end_offset - chunk.start_offset {
                    FetchOutcome::Success
                } else {
                    FetchOutcome::RangeMismatch
                }
            } else if 500 <= code && code <= 599 {
                FetchOutcome::TransientError
            } else if 400 <= code && code <= 499 && code != 416 {
                FetchOutcome::FatalError
            } else {
                FetchOutcome::RangeMismatch
            }
        },
        Response::ConnectionLost => FetchOutcome::TransientError,
        Response::TimedOut => FetchOutcome::TransientError,
        Response::MalformedUrl => FetchOutcome::FatalError,
    }
}

} // verus!
