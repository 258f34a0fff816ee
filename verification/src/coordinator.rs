//! The bookkeeping of one download: which chunk a free worker takes next,
//! what an ended attempt does to its chunk, and when the download is over.
//!
//! The coordinator performs no I/O. Whoever drives it asks for the next
//! chunk, fetches it, and reports progress and the outcome of the attempt.

use crate::fetch::FetchOutcome;
use crate::planner::{
    effective_workers, is_partition, lemma_planned_is_partition, plan, planned, ChunkSpec,
    PlanError,
};
use crate::progress::{
    fresh_state, lemma_planned_upto, lemma_received_upto, planned_upto, received_upto,
    state_after_cancel, state_after_outcome, state_fits, ChunkState, ChunkStatus,
};
use vstd::prelude::*;

verus! {

/// How a download ended as a whole.
#[derive(Clone, Copy, Debug, PartialEq, Eq, Structural)]
pub enum OverallStatus {
    /// Every chunk succeeded.
    Complete,
    /// Some chunks succeeded and some failed.
    PartialFailure,
    /// No chunk succeeded, or the download was canceled.
    Failed,
}

/// Why a report about a chunk was not taken.
#[derive(Clone, Copy, Debug, PartialEq, Eq, Structural)]
pub enum ReportError {
    /// The plan has no chunk of that index.
    UnknownChunk,
    /// No attempt on that chunk is under way.
    NotInFlight,
    /// The bytes would run past the end of the chunk's range.
    OutsideWindow,
}

/// What became of one chunk: its range as planned, and its final state.
#[derive(Clone, Copy, Debug, PartialEq, Eq)]
pub struct ChunkOutcome {
    pub index: usize,
    pub start_offset: usize,
    pub end_offset: usize,
    pub status: ChunkStatus,
    pub attempt_count: u64,
    pub last_error: Option<FetchOutcome>,
}

/// The terminal account of a download.
#[derive(Clone, Debug, PartialEq, Eq)]
pub struct DownloadResult {
    pub total_bytes_written: usize,
    /// One entry per chunk, in index order.
    pub chunk_outcomes: Vec<ChunkOutcome>,
    pub overall_status: OverallStatus,
    /// Whether the download was canceled before it was over.
    pub canceled: bool,
    /// Whether some chunk met a fatal error.
    pub fatal: bool,
}

/// The final record of a chunk planned as `chunk` whose state is `state`.
pub open spec fn outcome_entry(chunk: ChunkSpec, state: ChunkState) -> ChunkOutcome {
    ChunkOutcome {
        index: chunk.index,
        start_offset: chunk.start_offset,
        end_offset: chunk.end_offset,
        status: state.status,
        attempt_count: state.attempt_count,
        last_error: state.last_error,
    }
}

/// The mathematical state of a coordinator.
pub struct CoordinatorModel {
    pub total_size: nat,
    pub worker_count: nat,
    pub max_retries: nat,
    pub chunks: Seq<ChunkSpec>,
    pub states: Seq<ChunkState>,
    pub canceled: bool,
}

impl CoordinatorModel {
    /// The state a download starts in: the plan, with every chunk waiting.
    pub open spec fn start(total_size: nat, worker_count: nat, max_retries: nat) -> Self {
        CoordinatorModel {
            total_size,
            worker_count,
            max_retries,
            chunks: planned(total_size, worker_count),
            states: Seq::new(
                effective_workers(total_size, worker_count),
                |i: int| fresh_state(),
            ),
            canceled: false,
        }
    }

    /// The invariant of every coordinator: the chunks are the plan, each has
    /// a state that fits it, and chunks are marked canceled exactly when the
    /// download was, after which nothing is left to do.
    pub open spec fn wf(self) -> bool {
        &&& 0 < self.total_size <= usize::MAX
        &&& 0 < self.worker_count
        &&& self.chunks == planned(self.total_size, self.worker_count)
        &&& self.states.len() == self.chunks.len()
        &&& forall|i: int|
            0 <= i < self.states.len() ==> state_fits(
                self.chunks[i],
                #[trigger] self.states[i],
                self.max_retries,
            )
        &&& self.canceled ==> self.is_done()
        &&& self.canceled <==> exists|i: int|
            0 <= i < self.states.len() && (#[trigger] self.states[i]).status
                == ChunkStatus::Canceled
    }

    /// Whether every chunk has reached a terminal status.
    pub open spec fn is_done(self) -> bool {
        forall|i: int|
            0 <= i < self.states.len() ==> (#[trigger] self.states[i]).status.spec_is_terminal()
    }

    /// Whether chunk `i` is waiting and no chunk before it is.
    pub open spec fn is_first_pending(self, i: int) -> bool {
        &&& 0 <= i < self.states.len()
        &&& self.states[i].status == ChunkStatus::Pending
        &&& forall|j: int| 0 <= j < i ==> (#[trigger] self.states[j]).status != ChunkStatus::Pending
    }

    /// Whether no chunk is waiting.
    pub open spec fn none_pending(self) -> bool {
        forall|i: int|
            0 <= i < self.states.len() ==> (#[trigger] self.states[i]).status
                != ChunkStatus::Pending
    }

    /// The state with chunk `i` replaced by `state`.
    pub open spec fn with_state(self, i: int, state: ChunkState) -> Self {
        CoordinatorModel { states: self.states.update(i, state), ..self }
    }

    /// The state after chunk `i` was handed to a worker.
    pub open spec fn dispatched(self, i: int) -> Self {
        self.with_state(
            i,
            ChunkState {
                bytes_received: self.states[i].bytes_received,
                attempt_count: self.states[i].attempt_count,
                status: ChunkStatus::InFlight,
                last_error: self.states[i].last_error,
            },
        )
    }

    /// Why a report of `bytes` more bytes for chunk `index` is not taken, if
    /// it is not.
    pub open spec fn progress_refusal(self, index: int, bytes: int) -> Option<ReportError> {
        if !(0 <= index < self.states.len()) {
            Some(ReportError::UnknownChunk)
        } else if self.states[index].status != ChunkStatus::InFlight {
            Some(ReportError::NotInFlight)
        } else if self.states[index].bytes_received + bytes > self.chunks[index].spec_len() {
            Some(ReportError::OutsideWindow)
        } else {
            None
        }
    }

    /// The state after `bytes` more bytes arrived for chunk `i`.
    pub open spec fn progressed(self, i: int, bytes: int) -> Self {
        self.with_state(
            i,
            ChunkState {
                bytes_received: (self.states[i].bytes_received + bytes) as usize,
                attempt_count: self.states[i].attempt_count,
                status: self.states[i].status,
                last_error: self.states[i].last_error,
            },
        )
    }

    /// Why the end of an attempt on chunk `index` is not taken, if it is not.
    pub open spec fn finish_refusal(self, index: int) -> Option<ReportError> {
        if !(0 <= index < self.states.len()) {
            Some(ReportError::UnknownChunk)
        } else if self.states[index].status != ChunkStatus::InFlight {
            Some(ReportError::NotInFlight)
        } else {
            None
        }
    }

    /// The state after the attempt on chunk `i` ended with `outcome`.
    pub open spec fn finished(self, i: int, outcome: FetchOutcome) -> Self {
        self.with_state(
            i,
            state_after_outcome(self.chunks[i], self.states[i], outcome, self.max_retries),
        )
    }

    /// The state after a cancellation: nothing changes once the download is
    /// over; before that, every chunk that has not reached a terminal status
    /// is marked canceled, which ends the download.
    pub open spec fn canceled_now(self) -> Self {
        if self.is_done() {
            self
        } else {
            CoordinatorModel {
                states: Seq::new(self.states.len(), |i: int| state_after_cancel(self.states[i])),
                canceled: true,
                ..self
            }
        }
    }

    /// Whether every chunk succeeded.
    pub open spec fn all_succeeded(self) -> bool {
        forall|i: int|
            0 <= i < self.states.len() ==> (#[trigger] self.states[i]).status
                == ChunkStatus::Succeeded
    }

    /// Whether at least one chunk succeeded.
    pub open spec fn any_succeeded(self) -> bool {
        exists|i: int|
            0 <= i < self.states.len() && (#[trigger] self.states[i]).status
                == ChunkStatus::Succeeded
    }

    /// Whether at least one chunk failed.
    pub open spec fn any_failed(self) -> bool {
        exists|i: int|
            0 <= i < self.states.len() && (#[trigger] self.states[i]).status == ChunkStatus::Failed
    }

    /// Whether some chunk met a fatal error.
    pub open spec fn any_fatal(self) -> bool {
        exists|i: int|
            0 <= i < self.states.len() && (#[trigger] self.states[i]).last_error == Some(
                FetchOutcome::FatalError,
            )
    }

    /// The verdict on a download that is over: complete when every chunk
    /// succeeded, failed when it was canceled or no chunk succeeded, and a
    /// partial failure otherwise.
    pub open spec fn overall_status(self) -> OverallStatus {
        if self.all_succeeded() {
            OverallStatus::Complete
        } else if self.canceled || !self.any_succeeded() {
            OverallStatus::Failed
        } else {
            OverallStatus::PartialFailure
        }
    }

    /// Bytes received by all chunks together.
    pub open spec fn bytes_received(self) -> int {
        received_upto(self.states, self.states.len() as int)
    }

    /// The final record of every chunk, in index order.
    pub open spec fn outcomes(self) -> Seq<ChunkOutcome> {
        Seq::new(self.states.len(), |i: int| outcome_entry(self.chunks[i], self.states[i]))
    }
}

/// At every point of a download the bytes received lie between nothing and
/// the size of the resource, and they are the whole resource once every
/// chunk has succeeded.
pub proof fn lemma_progress_bounds(model: CoordinatorModel)
    requires
        model.wf(),
    ensures
        0 <= model.bytes_received() <= model.total_size,
        model.all_succeeded() ==> model.bytes_received() == model.total_size,
{
    lemma_planned_is_partition(model.total_size, model.worker_count);
    let n = model.states.len() as int;
    lemma_planned_upto(model.chunks, model.total_size, n);
    assert forall|i: int| 0 <= i < n implies (#[trigger] model.states[i]).bytes_received
        <= model.chunks[i].spec_len() by {
        assert(state_fits(model.chunks[i], model.states[i], model.max_retries));
    }
    lemma_received_upto(model.chunks, model.states, n);
    if model.all_succeeded() {
        assert forall|i: int| 0 <= i < n implies (#[trigger] model.states[i]).bytes_received
            == model.chunks[i].spec_len() by {
            assert(state_fits(model.chunks[i], model.states[i], model.max_retries));
        }
    }
}

/// A download starts well-formed, with work to do, and its first chunk is
/// the first to be handed out.
pub proof fn lemma_start_wf(total_size: nat, worker_count: nat, max_retries: nat)
    requires
        0 < total_size <= usize::MAX,
        0 < worker_count,
    ensures
        CoordinatorModel::start(total_size, worker_count, max_retries).wf(),
        !CoordinatorModel::start(total_size, worker_count, max_retries).is_done(),
        CoordinatorModel::start(total_size, worker_count, max_retries).is_first_pending(0),
{
    let model = CoordinatorModel::start(total_size, worker_count, max_retries);
    lemma_planned_is_partition(total_size, worker_count);
    assert(model.states[0].status == ChunkStatus::Pending);
    assert forall|i: int| 0 <= i < model.states.len() implies state_fits(
        model.chunks[i],
        #[trigger] model.states[i],
        max_retries,
    ) by {
        assert(model.chunks[i].start_offset <= model.chunks[i].end_offset);
    }
}

/// The verdict on a download that ran to its end without being canceled:
/// every chunk has succeeded or failed; the download is complete exactly
/// when none failed, a partial failure exactly when some chunk succeeded and
/// some chunk failed, and failed exactly when none succeeded. Whatever the
/// verdict, every chunk is reported with the range it was planned with.
pub proof fn lemma_verdict(model: CoordinatorModel)
    requires
        model.wf(),
        model.is_done(),
        !model.canceled,
    ensures
        forall|i: int|
            0 <= i < model.states.len() ==> (#[trigger] model.states[i]).status
                == ChunkStatus::Succeeded || model.states[i].status == ChunkStatus::Failed,
        model.overall_status() == OverallStatus::Complete <==> !model.any_failed(),
        model.overall_status() == OverallStatus::PartialFailure <==> model.any_succeeded()
            && model.any_failed(),
        model.overall_status() == OverallStatus::Failed <==> !model.any_succeeded(),
        model.outcomes().len() == model.chunks.len(),
        forall|i: int|
            0 <= i < model.chunks.len() ==> {
                &&& (#[trigger] model.outcomes()[i]).index == i
                &&& model.outcomes()[i].start_offset == model.chunks[i].start_offset
                &&& model.outcomes()[i].end_offset == model.chunks[i].end_offset
                &&& model.outcomes()[i].status == model.states[i].status
            },
{
    lemma_planned_is_partition(model.total_size, model.worker_count);
    assert forall|i: int| 0 <= i < model.states.len() implies (#[trigger] model.states[i]).status
        == ChunkStatus::Succeeded || model.states[i].status == ChunkStatus::Failed by {
        assert(model.states[i].status.spec_is_terminal());
    }
    assert(model.states[0].status.spec_is_terminal());
    if model.all_succeeded() {
        assert(model.states[0].status == ChunkStatus::Succeeded);
    }
    assert forall|i: int| 0 <= i < model.chunks.len() implies (#[trigger] model.outcomes()[i]).index
        == i by {
        assert(model.chunks[i].index == i);
    }
}

/// A fatal error is never forgotten: the chunk that met it has failed for
/// good, so the download cannot be complete.
pub proof fn lemma_fatal_rules_out_complete(model: CoordinatorModel)
    requires
        model.wf(),
        model.any_fatal(),
    ensures
        model.any_failed(),
        !model.all_succeeded(),
        model.overall_status() != OverallStatus::Complete,
{
    let k = choose|k: int|
        0 <= k < model.states.len() && (#[trigger] model.states[k]).last_error == Some(
            FetchOutcome::FatalError,
        );
    assert(state_fits(model.chunks[k], model.states[k], model.max_retries));
    assert(model.states[k].status == ChunkStatus::Failed);
}

/// A chunk whose attempt fails in a retryable way goes back to waiting, with
/// no bytes received, while the attempts that have ended are no more than
/// the retries allowed, and fails for good with the attempt after that. A
/// fatal error fails it at once.
pub proof fn lemma_retry_budget(
    chunk: ChunkSpec,
    state: ChunkState,
    outcome: FetchOutcome,
    max_retries: nat,
)
    requires
        state_fits(chunk, state, max_retries),
        state.status == ChunkStatus::InFlight,
        max_retries <= u32::MAX,
        outcome != FetchOutcome::Success,
    ensures
        state_after_outcome(chunk, state, outcome, max_retries).attempt_count
            == state.attempt_count + 1,
        state_after_outcome(chunk, state, outcome, max_retries).last_error == Some(outcome),
        outcome.spec_is_retryable() && state.attempt_count < max_retries ==> state_after_outcome(
            chunk,
            state,
            outcome,
            max_retries,
        ).status == ChunkStatus::Pending && state_after_outcome(
            chunk,
            state,
            outcome,
            max_retries,
        ).bytes_received == 0,
        !outcome.spec_is_retryable() || state.attempt_count == max_retries ==> state_after_outcome(
            chunk,
            state,
            outcome,
            max_retries,
        ).status == ChunkStatus::Failed,
{
}

/// Canceling a download that is not over ends it: no chunk is left waiting
/// or in flight, so none can start; chunks that had reached a terminal
/// status keep it, all others are marked canceled; and the verdict is
/// `Failed`, however many chunks had succeeded.
pub proof fn lemma_cancel_ends_download(model: CoordinatorModel)
    requires
        model.wf(),
        !model.is_done(),
    ensures
        model.canceled_now().wf(),
        model.canceled_now().canceled,
        model.canceled_now().is_done(),
        model.canceled_now().none_pending(),
        model.canceled_now().overall_status() == OverallStatus::Failed,
        forall|i: int|
            0 <= i < model.states.len() ==> (#[trigger] model.canceled_now().states[i]) == (
            if model.states[i].status.spec_is_terminal() {
                model.states[i]
            } else {
                ChunkState { status: ChunkStatus::Canceled, ..model.states[i] }
            }),
{
    let after = model.canceled_now();
    let k = choose|k: int|
        0 <= k < model.states.len() && !(#[trigger] model.states[k]).status.spec_is_terminal();
    assert(after.states[k].status == ChunkStatus::Canceled);
    assert forall|i: int| 0 <= i < after.states.len() implies state_fits(
        after.chunks[i],
        #[trigger] after.states[i],
        after.max_retries,
    ) by {
        assert(state_fits(model.chunks[i], model.states[i], model.max_retries));
    }
    assert forall|i: int| 0 <= i < after.states.len() implies (#[trigger] after.states[i])
        .status.spec_is_terminal() by {}
    assert(!after.all_succeeded());
}

/// The coordinator of one download.
pub struct DownloadCoordinator {
    total_size: usize,
    worker_count: usize,
    max_retries: u32,
    chunks: Vec<ChunkSpec>,
    states: Vec<ChunkState>,
    canceled: bool,
}

impl View for DownloadCoordinator {
    type V = CoordinatorModel;

    closed spec fn view(&self) -> CoordinatorModel {
        CoordinatorModel {
            total_size: self.total_size as nat,
            worker_count: self.worker_count as nat,
            max_retries: self.max_retries as nat,
            chunks: self.chunks@,
            states: self.states@,
            canceled: self.canceled,
        }
    }
}

impl DownloadCoordinator {
    /// Plans the download of a resource of `total_size` bytes by
    /// `worker_count` workers, each chunk being retried at most
    /// `max_retries` times. Fails exactly when no plan can be made.
    pub fn new(total_size: usize, worker_count: usize, max_retries: u32) -> (result: Result<
        DownloadCoordinator,
        PlanError,
    >)
        ensures
            result is Err <==> total_size == 0 || worker_count == 0,
            result matches Err(e) ==> e == PlanError::InvalidPlan,
            result matches Ok(coordinator) ==> coordinator@ == CoordinatorModel::start(
                total_size as nat,
                worker_count as nat,
                max_retries as nat,
            ) && coordinator@.wf(),
    {
        let chunks = match plan(total_size, worker_count) {
            Ok(chunks) => chunks,
            Err(e) => {
                return Err(e);
            },
        };
        let count: usize = chunks.len();
        let mut states: Vec<ChunkState> = Vec::new();
        let mut i: usize = 0;
        while i < count
            invariant
                i <= count,
                states@.len() == i,
                forall|k: int| 0 <= k < i ==> states@[k] == fresh_state(),
            decreases count - i,
        {
            states.push(
                ChunkState {
                    bytes_received: 0,
                    attempt_count: 0,
                    status: ChunkStatus::Pending,
                    last_error: None,
                },
            );
            i = i + 1;
        }
        let coordinator = DownloadCoordinator {
            total_size,
            worker_count,
            max_retries,
            chunks,
            states,
            canceled: false,
        };
        proof {
            lemma_start_wf(total_size as nat, worker_count as nat, max_retries as nat);
            assert(coordinator@.states =~= CoordinatorModel::start(
                total_size as nat,
                worker_count as nat,
                max_retries as nat,
            ).states);
        }
        Ok(coordinator)
    }

    /// Size of the resource in bytes.
    pub fn total_size(&self) -> (size: usize)
        ensures
            size == self@.total_size,
    {
        self.total_size
    }

    /// Retries allowed for each chunk.
    pub fn max_retries(&self) -> (retries: u32)
        ensures
            retries == self@.max_retries,
    {
        self.max_retries
    }

    /// Number of workers that can be busy at once: the workers asked for, or
    /// the number of chunks where that is smaller.
    pub fn pool_size(&self) -> (size: usize)
        requires
            self@.wf(),
        ensures
            size == self@.chunks.len(),
            size == if self@.worker_count <= self@.chunks.len() {
                self@.worker_count
            } else {
                self@.chunks.len()
            },
    {
        proof {
            lemma_planned_is_partition(self@.total_size, self@.worker_count);
        }
        self.chunks.len()
    }

    /// The planned chunks, in index order.
    pub fn chunks(&self) -> (chunks: &Vec<ChunkSpec>)
        ensures
            chunks@ == self@.chunks,
    {
        &self.chunks
    }

    /// The current state of every chunk, in index order.
    pub fn states(&self) -> (states: &Vec<ChunkState>)
        ensures
            states@ == self@.states,
    {
        &self.states
    }

    /// Whether the download was canceled.
    pub fn is_canceled(&self) -> (canceled: bool)
        ensures
            canceled == self@.canceled,
    {
        self.canceled
    }

    /// Hands out the waiting chunk of lowest index and marks it in flight.
    /// Returns `None`, and changes nothing, exactly when no chunk is waiting,
    /// as is the case once the download was canceled.
    pub fn next_chunk(&mut self) -> (next: Option<ChunkSpec>)
        requires
            old(self)@.wf(),
        ensures
            final(self)@.wf(),
            next is None <==> old(self)@.none_pending(),
            old(self)@.canceled ==> next is None,
            next is None ==> final(self)@ == old(self)@,
            next matches Some(chunk) ==> {
                &&& old(self)@.is_first_pending(chunk.index as int)
                &&& chunk == old(self)@.chunks[chunk.index as int]
                &&& final(self)@ == old(self)@.dispatched(chunk.index as int)
            },
    {
        proof {
            lemma_planned_is_partition(self@.total_size, self@.worker_count);
        }
        let count: usize = self.states.len();
        let mut i: usize = 0;
        while i < count
            invariant
                i <= count,
                count == self.states@.len(),
                *self == *old(self),
                self@.wf(),
                forall|j: int|
                    0 <= j < i ==> (#[trigger] self.states@[j]).status != ChunkStatus::Pending,
            decreases count - i,
        {
            let state = self.states[i];
            if state.status == ChunkStatus::Pending {
                let chunk = self.chunks[i];
                self.states.set(
                    i,
                    ChunkState {
                        bytes_received: state.bytes_received,
                        attempt_count: state.attempt_count,
                        status: ChunkStatus::InFlight,
                        last_error: state.last_error,
                    },
                );
                proof {
                    let before = old(self)@;
                    let after = self@;
                    assert(chunk.index == i);
                    assert(after == before.dispatched(i as int));
                    assert(before.states[i as int].status == ChunkStatus::Pending);
                    assert forall|k: int| 0 <= k < after.states.len() implies state_fits(
                        after.chunks[k],
                        #[trigger] after.states[k],
                        after.max_retries,
                    ) by {
                        assert(state_fits(before.chunks[k], before.states[k], before.max_retries));
                    }
                    assert forall|k: int| 0 <= k < after.states.len() implies (
                    #[trigger] after.states[k]).status != ChunkStatus::Canceled by {
                        assert(before.states[k].status != ChunkStatus::Canceled);
                    }
                }
                return Some(chunk);
            }
            i = i + 1;
        }
        None
    }

    /// Records that `bytes` more bytes of chunk `index` arrived. The report
    /// is refused, and nothing changes, when there is no such chunk, when no
    /// attempt on it is under way, or when the bytes would run past the end
    /// of its range. Otherwise the chunk's new byte count is returned.
    pub fn record_progress(&mut self, index: usize, bytes: usize) -> (result: Result<
        usize,
        ReportError,
    >)
        requires
            old(self)@.wf(),
        ensures
            final(self)@.wf(),
            result matches Err(e) ==> old(self)@.progress_refusal(index as int, bytes as int)
                == Some(e) && final(self)@ == old(self)@,
            result matches Ok(received) ==> {
                &&& old(self)@.progress_refusal(index as int, bytes as int) is None
                &&& received == old(self)@.states[index as int].bytes_received + bytes
                &&& final(self)@ == old(self)@.progressed(index as int, bytes as int)
            },
    {
        proof {
            lemma_planned_is_partition(self@.total_size, self@.worker_count);
        }
        if index >= self.states.len() {
            return Err(ReportError::UnknownChunk);
        }
        let state = self.states[index];
        if state.status != ChunkStatus::InFlight {
            return Err(ReportError::NotInFlight);
        }
        let chunk = self.chunks[index];
        assert(state_fits(chunk, state, self@.max_retries));
        let room: usize = chunk.end_offset - chunk.start_offset + 1 - state.bytes_received;
        if bytes > room {
            return Err(ReportError::OutsideWindow);
        }
        let received: usize = state.bytes_received + bytes;
        self.states.set(
            index,
            ChunkState {
                bytes_received: received,
                attempt_count: state.attempt_count,
                status: state.status,
                last_error: state.last_error,
            },
        );
        proof {
            let before = old(self)@;
            let after = self@;
            assert(after == before.progressed(index as int, bytes as int));
            assert forall|k: int| 0 <= k < after.states.len() implies state_fits(
                after.chunks[k],
                #[trigger] after.states[k],
                after.max_retries,
            ) by {
                assert(state_fits(before.chunks[k], before.states[k], before.max_retries));
            }
            assert forall|k: int| 0 <= k < after.states.len() implies (#[trigger] after.states[k])
                .status != ChunkStatus::Canceled by {
                assert(before.states[k].status != ChunkStatus::Canceled);
            }
        }
        Ok(received)
    }

    /// Records that the attempt on chunk `index` ended with `outcome`, and
    /// returns the chunk's new status. The report is refused, and nothing
    /// changes, when there is no such chunk or no attempt on it is under way.
    pub fn finish_attempt(&mut self, index: usize, outcome: FetchOutcome) -> (result: Result<
        ChunkStatus,
        ReportError,
    >)
        requires
            old(self)@.wf(),
        ensures
            final(self)@.wf(),
            result matches Err(e) ==> old(self)@.finish_refusal(index as int) == Some(e)
                && final(self)@ == old(self)@,
            result matches Ok(status) ==> {
                &&& old(self)@.finish_refusal(index as int) is None
                &&& final(self)@ == old(self)@.finished(index as int, outcome)
                &&& status == final(self)@.states[index as int].status
            },
    {
        proof {
            lemma_planned_is_partition(self@.total_size, self@.worker_count);
        }
        if index >= self.states.len() {
            return Err(ReportError::UnknownChunk);
        }
        let state = self.states[index];
        if state.status != ChunkStatus::InFlight {
            return Err(ReportError::NotInFlight);
        }
        let chunk = self.chunks[index];
        assert(state_fits(chunk, state, self@.max_retries));
        let length: usize = chunk.end_offset - chunk.start_offset + 1;
        let settled = if outcome == FetchOutcome::Success && state.bytes_received != length {
            FetchOutcome::RangeMismatch
        } else {
            outcome
        };
        let attempts: u64 = state.attempt_count + 1;
        let next = if settled == FetchOutcome::Success {
            ChunkState {
                bytes_received: state.bytes_received,
                attempt_count: attempts,
                status: ChunkStatus::Succeeded,
                last_error: state.last_error,
            }
        } else if settled.is_retryable() && attempts <= self.max_retries as u64 {
            ChunkState {
                bytes_received: 0,
                attempt_count: attempts,
                status: ChunkStatus::Pending,
                last_error: Some(settled),
            }
        } else {
            ChunkState {
                bytes_received: state.bytes_received,
                attempt_count: attempts,
                status: ChunkStatus::Failed,
                last_error: Some(settled),
            }
        };
        self.states.set(index, next);
        proof {
            let before = old(self)@;
            let after = self@;
            assert(next == state_after_outcome(chunk, state, outcome, before.max_retries));
            assert(after == before.finished(index as int, outcome));
            assert forall|k: int| 0 <= k < after.states.len() implies state_fits(
                after.chunks[k],
                #[trigger] after.states[k],
                after.max_retries,
            ) by {
                assert(state_fits(before.chunks[k], before.states[k], before.max_retries));
            }
            assert forall|k: int| 0 <= k < after.states.len() implies (#[trigger] after.states[k])
                .status != ChunkStatus::Canceled by {
                assert(before.states[k].status != ChunkStatus::Canceled);
            }
        }
        Ok(next.status)
    }

    /// Whether every chunk has reached a terminal status.
    pub fn is_done(&self) -> (done: bool)
        ensures
            done == self@.is_done(),
    {
        let count: usize = self.states.len();
        let mut i: usize = 0;
        while i < count
            invariant
                i <= count,
                count == self.states@.len(),
                forall|j: int|
                    0 <= j < i ==> (#[trigger] self.states@[j]).status.spec_is_terminal(),
            decreases count - i,
        {
            if !self.states[i].status.is_terminal() {
                return false;
            }
            i = i + 1;
        }
        true
    }

    /// Cancels the download. Once the download is over this changes nothing
    /// and returns `false`. Before that, every chunk that is waiting or in
    /// flight is marked canceled, which ends the download, and `true` is
    /// returned.
    pub fn cancel(&mut self) -> (canceled: bool)
        requires
            old(self)@.wf(),
        ensures
            final(self)@.wf(),
            final(self)@ == old(self)@.canceled_now(),
            canceled == !old(self)@.is_done(),
            final(self)@.is_done(),
            final(self)@.none_pending(),
    {
        if self.is_done() {
            proof {
                assert forall|i: int| 0 <= i < self@.states.len() implies (#[trigger] self@.states[i])
                    .status != ChunkStatus::Pending by {
                    assert(self@.states[i].status.spec_is_terminal());
                }
            }
            return false;
        }
        let count: usize = self.states.len();
        let mut i: usize = 0;
        while i < count
            invariant
                i <= count,
                count == self.states@.len(),
                count == old(self).states@.len(),
                self.total_size == old(self).total_size,
                self.worker_count == old(self).worker_count,
                self.max_retries == old(self).max_retries,
                self.chunks == old(self).chunks,
                self.canceled == old(self).canceled,
                forall|k: int|
                    0 <= k < i ==> (#[trigger] self.states@[k]) == state_after_cancel(
                        old(self).states@[k],
                    ),
                forall|k: int| i <= k < count ==> (#[trigger] self.states@[k]) == old(self).states@[k],
            decreases count - i,
        {
            let state = self.states[i];
            if !state.status.is_terminal() {
                self.states.set(
                    i,
                    ChunkState {
                        bytes_received: state.bytes_received,
                        attempt_count: state.attempt_count,
                        status: ChunkStatus::Canceled,
                        last_error: state.last_error,
                    },
                );
            }
            i = i + 1;
        }
        self.canceled = true;
        proof {
            lemma_cancel_ends_download(old(self)@);
            assert(self@.states =~= old(self)@.canceled_now().states);
        }
        true
    }

    /// Bytes received so far by all chunks together, and the size of the
    /// resource. The first never exceeds the second, and equals it once
    /// every chunk has succeeded.
    pub fn snapshot_progress(&self) -> (progress: (usize, usize))
        requires
            self@.wf(),
        ensures
            progress.0 == self@.bytes_received(),
            progress.1 == self@.total_size,
            progress.0 <= progress.1,
            self@.all_succeeded() ==> progress.0 == progress.1,
    {
        proof {
            lemma_planned_is_partition(self@.total_size, self@.worker_count);
            lemma_progress_bounds(self@);
        }
        let count: usize = self.states.len();
        let mut received: usize = 0;
        let mut i: usize = 0;
        while i < count
            invariant
                i <= count,
                count == self.states@.len(),
                self@.wf(),
                is_partition(self@.chunks, self@.total_size),
                received == received_upto(self.states@, i as int),
                received <= planned_upto(self.chunks@, i as int) <= self.total_size,
            decreases count - i,
        {
            proof {
                lemma_planned_upto(self@.chunks, self@.total_size, i as int + 1);
                assert(state_fits(self@.chunks[i as int], self@.states[i as int], self@.max_retries));
            }
            received = received + self.states[i].bytes_received;
            i = i + 1;
        }
        (received, self.total_size)
    }

    /// The terminal account of the download: `None` while some chunk is
    /// waiting or in flight; after that the verdict, the bytes received, and
    /// the final record of every chunk in index order.
    pub fn result(&self) -> (result: Option<DownloadResult>)
        requires
            self@.wf(),
        ensures
            result is Some <==> self@.is_done(),
            result matches Some(account) ==> {
                &&& account.overall_status == self@.overall_status()
                &&& account.total_bytes_written == self@.bytes_received()
                &&& account.chunk_outcomes@ == self@.outcomes()
                &&& account.canceled == self@.canceled
                &&& account.fatal == self@.any_fatal()
            },
    {
        if !self.is_done() {
            return None;
        }
        let count: usize = self.states.len();
        let mut outcomes: Vec<ChunkOutcome> = Vec::new();
        let mut all_succeeded = true;
        let mut any_succeeded = false;
        let mut any_fatal = false;
        let mut i: usize = 0;
        while i < count
            invariant
                i <= count,
                count == self.states@.len(),
                count == self.chunks@.len(),
                outcomes@.len() == i,
                any_fatal <==> exists|k: int|
                    0 <= k < i && (#[trigger] self.states@[k]).last_error == Some(
                        FetchOutcome::FatalError,
                    ),
                forall|k: int|
                    0 <= k < i ==> outcomes@[k] == outcome_entry(
                        self.chunks@[k],
                        self.states@[k],
                    ),
                all_succeeded <==> forall|k: int|
                    0 <= k < i ==> (#[trigger] self.states@[k]).status == ChunkStatus::Succeeded,
                any_succeeded <==> exists|k: int|
                    0 <= k < i && (#[trigger] self.states@[k]).status == ChunkStatus::Succeeded,
            decreases count - i,
        {
            let chunk = self.chunks[i];
            let state = self.states[i];
            if state.status == ChunkStatus::Succeeded {
                any_succeeded = true;
            } else {
                all_succeeded = false;
            }
            match state.last_error {
                Some(FetchOutcome::FatalError) => {
                    any_fatal = true;
                },
                _ => {},
            }
            outcomes.push(
                ChunkOutcome {
                    index: chunk.index,
                    start_offset: chunk.start_offset,
                    end_offset: chunk.end_offset,
                    status: state.status,
                    attempt_count: state.attempt_count,
                    last_error: state.last_error,
                },
            );
            i = i + 1;
        }
        let overall_status = if all_succeeded {
            OverallStatus::Complete
        } else if self.canceled || !any_succeeded {
            OverallStatus::Failed
        } else {
            OverallStatus::PartialFailure
        };
        let progress = self.snapshot_progress();
        proof {
            assert(outcomes@ =~= self@.outcomes());
        }
        Some(
            DownloadResult {
                total_bytes_written: progress.0,
                chunk_outcomes: outcomes,
                overall_status,
                canceled: self.canceled,
                fatal: any_fatal,
            },
        )
    }
}

} // verus!
