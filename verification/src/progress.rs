//! Per-chunk download state and the rules by which it changes.

use crate::fetch::FetchOutcome;
use crate::planner::{is_partition, lemma_partition_ordered, ChunkSpec};
use vstd::prelude::*;

verus! {

/// Where a chunk stands in its download.
#[derive(Clone, Copy, Debug, PartialEq, Eq, Structural)]
pub enum ChunkStatus {
    /// Waiting for a worker.
    Pending,
    /// A worker is fetching it.
    InFlight,
    /// All of its bytes arrived.
    Succeeded,
    /// It ran out of attempts or met a fatal error.
    Failed,
    /// The download was canceled before it completed.
    Canceled,
}

impl ChunkStatus {
    /// Whether no further transition leaves this status.
    pub open spec fn spec_is_terminal(self) -> bool {
        self == ChunkStatus::Succeeded || self == ChunkStatus::Failed || self
            == ChunkStatus::Canceled
    }

    /// Whether no further transition leaves this status.
    pub fn is_terminal(&self) -> (terminal: bool)
        ensures
            terminal == self.spec_is_terminal(),
    {
        match self {
            ChunkStatus::Pending => false,
            ChunkStatus::InFlight => false,
            ChunkStatus::Succeeded => true,
            ChunkStatus::Failed => true,
            ChunkStatus::Canceled => true,
        }
    }
}

/// The mutable record kept for one chunk.
#[derive(Clone, Copy, Debug, PartialEq, Eq)]
pub struct ChunkState {
    /// Bytes received in the current attempt.
    pub bytes_received: usize,
    /// Attempts that have ended, whatever their outcome.
    pub attempt_count: u64,
    pub status: ChunkStatus,
    /// The failure that ended the most recent failed attempt.
    pub last_error: Option<FetchOutcome>,
}

/// The state every chunk starts in.
pub open spec fn fresh_state() -> ChunkState {
    ChunkState {
        bytes_received: 0,
        attempt_count: 0,
        status: ChunkStatus::Pending,
        last_error: None,
    }
}

/// What `state` may hold for `chunk` when at most `max_retries` retries are
/// allowed: never more bytes than the chunk has, all of them once it
/// succeeded, none while it waits, never more ended attempts than one first
/// try plus the retries, an error on record once it failed, and no fatal
/// error on record unless it failed.
pub open spec fn state_fits(chunk: ChunkSpec, state: ChunkState, max_retries: nat) -> bool {
    &&& state.bytes_received <= chunk.spec_len()
    &&& state.status == ChunkStatus::Succeeded ==> state.bytes_received == chunk.spec_len()
    &&& state.status == ChunkStatus::Pending ==> state.bytes_received == 0
    &&& state.attempt_count <= max_retries + 1
    &&& !state.status.spec_is_terminal() ==> state.attempt_count <= max_retries
    &&& state.status == ChunkStatus::Failed ==> state.last_error is Some
    &&& state.last_error == Some(FetchOutcome::FatalError) ==> state.status == ChunkStatus::Failed
}

/// The outcome as the bookkeeping takes it: a reported success counts only
/// when every byte of the chunk has been recorded, and is a range mismatch
/// otherwise.
pub open spec fn settled_outcome(
    chunk: ChunkSpec,
    state: ChunkState,
    outcome: FetchOutcome,
) -> FetchOutcome {
    if outcome == FetchOutcome::Success && state.bytes_received != chunk.spec_len() {
        FetchOutcome::RangeMismatch
    } else {
        outcome
    }
}

/// The state of an in-flight chunk after an attempt ended with `outcome`.
///
/// Every ended attempt is counted. A success makes the chunk `Succeeded`. A
/// retryable failure puts it back to `Pending` with no bytes received while
/// the count of ended attempts is at most `max_retries`, and makes it
/// `Failed` after that. A fatal error makes it `Failed` at once.
pub open spec fn state_after_outcome(
    chunk: ChunkSpec,
    state: ChunkState,
    outcome: FetchOutcome,
    max_retries: nat,
) -> ChunkState {
    let settled = settled_outcome(chunk, state, outcome);
    let attempts = (state.attempt_count + 1) as u64;
    if settled == FetchOutcome::Success {
        ChunkState {
            bytes_received: state.bytes_received,
            attempt_count: attempts,
            status: ChunkStatus::Succeeded,
            last_error: state.last_error,
        }
    } else if settled.spec_is_retryable() && attempts <= max_retries {
        ChunkState {
            bytes_received: 0,
            attempt_count: attempts,
            status: ChunkStatus::Pending,
            last_error: Some(settled),
        }
    } else {
        ChunkState {
            bytes_received: state.bytes_received,
            attempt_count: attempts,
            status: ChunkStatus::Failed,
            last_error: Some(settled),
        }
    }
}

/// The state of a chunk once the download is canceled: a chunk that is
/// waiting or in flight is marked `Canceled`, every other chunk stays.
pub open spec fn state_after_cancel(state: ChunkState) -> ChunkState {
    if state.status.spec_is_terminal() {
        state
    } else {
        ChunkState {
            bytes_received: state.bytes_received,
            attempt_count: state.attempt_count,
            status: ChunkStatus::Canceled,
            last_error: state.last_error,
        }
    }
}

/// Bytes received by the first `n` chunks.
pub open spec fn received_upto(states: Seq<ChunkState>, n: int) -> int
    decreases n,
{
    if n <= 0 {
        0
    } else {
        received_upto(states, n - 1) + states[n - 1].bytes_received
    }
}

/// Bytes planned for the first `n` chunks.
pub open spec fn planned_upto(chunks: Seq<ChunkSpec>, n: int) -> int
    decreases n,
{
    if n <= 0 {
        0
    } else {
        planned_upto(chunks, n - 1) + chunks[n - 1].spec_len()
    }
}

/// The first `n` chunks of a partition hold exactly the bytes before the
/// start of chunk `n`, and all chunks together hold the whole resource.
pub proof fn lemma_planned_upto(chunks: Seq<ChunkSpec>, total_size: nat, n: int)
    requires
        is_partition(chunks, total_size),
        0 <= n <= chunks.len(),
    ensures
        planned_upto(chunks, n) == if n == 0 {
            0
        } else {
            chunks[n - 1].end_offset + 1
        },
        0 <= planned_upto(chunks, n) <= total_size,
        n == chunks.len() ==> planned_upto(chunks, n) == total_size,
    decreases n,
{
    if n > 0 {
        lemma_planned_upto(chunks, total_size, n - 1);
        if n > 1 {
            assert(chunks[n - 2].end_offset + 1 == chunks[n - 2 + 1].start_offset);
        }
        assert(chunks[n - 1].start_offset <= chunks[n - 1].end_offset);
        if n < chunks.len() {
            lemma_partition_ordered(chunks, total_size, n - 1, chunks.len() - 1);
        }
    }
}

/// Where no chunk has received more than its length, the first `n` chunks
/// have together received no more than was planned for them, and exactly
/// that much where each of them has received all of its bytes.
pub proof fn lemma_received_upto(
    chunks: Seq<ChunkSpec>,
    states: Seq<ChunkState>,
    n: int,
)
    requires
        0 <= n <= chunks.len(),
        states.len() == chunks.len(),
        forall|i: int| 0 <= i < n ==> (#[trigger] states[i]).bytes_received <= chunks[i].spec_len(),
    ensures
        0 <= received_upto(states, n) <= planned_upto(chunks, n),
        (forall|i: int| 0 <= i < n ==> (#[trigger] states[i]).bytes_received == chunks[i].spec_len())
            ==> received_upto(states, n) == planned_upto(chunks, n),
    decreases n,
{
    if n > 0 {
        lemma_received_upto(chunks, states, n - 1);
        assert(states[n - 1].bytes_received <= chunks[n - 1].spec_len());
    }
}

} // verus!
