use rwordlistctl::coordinator::{
    ChunkOutcome, DownloadCoordinator, OverallStatus, ReportError,
};
use rwordlistctl::fetch::FetchOutcome;
use rwordlistctl::planner::{ChunkSpec, PlanError};
use rwordlistctl::progress::{ChunkState, ChunkStatus};

fn fetch_whole(coordinator: &mut DownloadCoordinator, chunk: &ChunkSpec) {
    let length = chunk.end_offset - chunk.start_offset + 1;
    assert_eq!(coordinator.record_progress(chunk.index, length), Ok(length));
    assert_eq!(
        coordinator.finish_attempt(chunk.index, FetchOutcome::Success),
        Ok(ChunkStatus::Succeeded)
    );
}

fn statuses(coordinator: &DownloadCoordinator) -> Vec<ChunkStatus> {
    coordinator.states().iter().map(|s| s.status).collect()
}

#[test]
fn new_plans_and_leaves_every_chunk_pending() {
    let coordinator = DownloadCoordinator::new(1000, 3, 2).unwrap();
    assert_eq!(coordinator.total_size(), 1000);
    assert_eq!(coordinator.max_retries(), 2);
    assert_eq!(coordinator.pool_size(), 3);
    assert_eq!(
        *coordinator.chunks(),
        vec![
            ChunkSpec { index: 0, start_offset: 0, end_offset: 332 },
            ChunkSpec { index: 1, start_offset: 333, end_offset: 665 },
            ChunkSpec { index: 2, start_offset: 666, end_offset: 999 },
        ]
    );
    let fresh = ChunkState {
        bytes_received: 0,
        attempt_count: 0,
        status: ChunkStatus::Pending,
        last_error: None,
    };
    assert_eq!(*coordinator.states(), vec![fresh, fresh, fresh]);
    assert!(!coordinator.is_done());
    assert!(!coordinator.is_canceled());
    assert_eq!(coordinator.result(), None);
    assert_eq!(coordinator.snapshot_progress(), (0, 1000));
}

#[test]
fn new_rejects_what_cannot_be_planned() {
    assert_eq!(DownloadCoordinator::new(0, 3, 2).err(), Some(PlanError::InvalidPlan));
    assert_eq!(DownloadCoordinator::new(1000, 0, 2).err(), Some(PlanError::InvalidPlan));
}

#[test]
fn pool_is_no_larger_than_the_plan() {
    let coordinator = DownloadCoordinator::new(10, 100, 0).unwrap();
    assert_eq!(coordinator.pool_size(), 10);
    assert_eq!(coordinator.chunks().len(), 10);
}

#[test]
fn chunks_are_handed_out_in_index_order() {
    let mut coordinator = DownloadCoordinator::new(1000, 3, 2).unwrap();
    assert_eq!(coordinator.next_chunk().map(|c| c.index), Some(0));
    assert_eq!(coordinator.next_chunk().map(|c| c.index), Some(1));
    assert_eq!(
        statuses(&coordinator),
        vec![ChunkStatus::InFlight, ChunkStatus::InFlight, ChunkStatus::Pending]
    );
    assert_eq!(
        coordinator.next_chunk(),
        Some(ChunkSpec { index: 2, start_offset: 666, end_offset: 999 })
    );
    assert_eq!(coordinator.next_chunk(), None);
    assert_eq!(statuses(&coordinator), vec![ChunkStatus::InFlight; 3]);
}

#[test]
fn requeued_chunk_is_taken_before_later_pending_chunks() {
    let mut coordinator = DownloadCoordinator::new(1000, 3, 2).unwrap();
    assert_eq!(coordinator.next_chunk().map(|c| c.index), Some(0));
    assert_eq!(coordinator.next_chunk().map(|c| c.index), Some(1));
    assert_eq!(
        coordinator.finish_attempt(0, FetchOutcome::TransientError),
        Ok(ChunkStatus::Pending)
    );
    assert_eq!(coordinator.next_chunk().map(|c| c.index), Some(0));
    assert_eq!(coordinator.next_chunk().map(|c| c.index), Some(2));
}

#[test]
fn two_transient_errors_then_success_within_budget() {
    let mut coordinator = DownloadCoordinator::new(1000, 3, 2).unwrap();
    let first = coordinator.next_chunk().unwrap();
    let second = coordinator.next_chunk().unwrap();
    let third = coordinator.next_chunk().unwrap();
    fetch_whole(&mut coordinator, &first);
    fetch_whole(&mut coordinator, &third);

    assert_eq!(coordinator.record_progress(1, 100), Ok(100));
    assert_eq!(
        coordinator.finish_attempt(1, FetchOutcome::TransientError),
        Ok(ChunkStatus::Pending)
    );
    assert_eq!(
        coordinator.states()[1],
        ChunkState {
            bytes_received: 0,
            attempt_count: 1,
            status: ChunkStatus::Pending,
            last_error: Some(FetchOutcome::TransientError),
        }
    );
    assert_eq!(coordinator.next_chunk(), Some(second));
    assert_eq!(
        coordinator.finish_attempt(1, FetchOutcome::TransientError),
        Ok(ChunkStatus::Pending)
    );
    assert_eq!(coordinator.states()[1].attempt_count, 2);
    assert_eq!(coordinator.next_chunk(), Some(second));
    fetch_whole(&mut coordinator, &second);

    assert_eq!(coordinator.states()[1].status, ChunkStatus::Succeeded);
    assert_eq!(coordinator.states()[1].attempt_count, 3);
    assert!(coordinator.is_done());
    let result = coordinator.result().unwrap();
    assert_eq!(result.overall_status, OverallStatus::Complete);
    assert_eq!(result.total_bytes_written, 1000);
    assert!(!result.canceled);
    assert_eq!(result.chunk_outcomes[1].attempt_count, 3);
    assert_eq!(result.chunk_outcomes[1].status, ChunkStatus::Succeeded);
}

#[test]
fn exhausted_retry_budget_is_a_partial_failure() {
    let mut coordinator = DownloadCoordinator::new(1000, 3, 2).unwrap();
    let first = coordinator.next_chunk().unwrap();
    let _second = coordinator.next_chunk().unwrap();
    let third = coordinator.next_chunk().unwrap();
    fetch_whole(&mut coordinator, &first);
    fetch_whole(&mut coordinator, &third);

    assert_eq!(coordinator.finish_attempt(1, FetchOutcome::TransientError), Ok(ChunkStatus::Pending));
    assert_eq!(coordinator.next_chunk().map(|c| c.index), Some(1));
    assert_eq!(coordinator.finish_attempt(1, FetchOutcome::RangeMismatch), Ok(ChunkStatus::Pending));
    assert_eq!(coordinator.next_chunk().map(|c| c.index), Some(1));
    assert_eq!(coordinator.record_progress(1, 40), Ok(40));
    assert_eq!(coordinator.finish_attempt(1, FetchOutcome::TransientError), Ok(ChunkStatus::Failed));
    assert_eq!(coordinator.next_chunk(), None);

    assert!(coordinator.is_done());
    let result = coordinator.result().unwrap();
    assert_eq!(result.overall_status, OverallStatus::PartialFailure);
    assert!(!result.fatal);
    assert!(!result.canceled);
    assert_eq!(result.chunk_outcomes.len(), 3);
    assert_eq!(
        result.chunk_outcomes[1],
        ChunkOutcome {
            index: 1,
            start_offset: 333,
            end_offset: 665,
            status: ChunkStatus::Failed,
            attempt_count: 3,
            last_error: Some(FetchOutcome::TransientError),
        }
    );
    assert_eq!(result.chunk_outcomes[0].status, ChunkStatus::Succeeded);
    assert_eq!(result.chunk_outcomes[0].start_offset, 0);
    assert_eq!(result.chunk_outcomes[0].end_offset, 332);
    assert_eq!(result.chunk_outcomes[2].status, ChunkStatus::Succeeded);
    assert_eq!(result.total_bytes_written, 333 + 40 + 334);
}

#[test]
fn zero_retries_fail_on_the_first_error() {
    let mut coordinator = DownloadCoordinator::new(10, 1, 0).unwrap();
    assert_eq!(coordinator.next_chunk().map(|c| c.index), Some(0));
    assert_eq!(coordinator.finish_attempt(0, FetchOutcome::TransientError), Ok(ChunkStatus::Failed));
    assert_eq!(coordinator.states()[0].attempt_count, 1);
    let result = coordinator.result().unwrap();
    assert_eq!(result.overall_status, OverallStatus::Failed);
    assert_eq!(result.total_bytes_written, 0);
}

#[test]
fn fatal_error_fails_at_once() {
    let mut coordinator = DownloadCoordinator::new(1000, 2, 5).unwrap();
    let first = coordinator.next_chunk().unwrap();
    let _second = coordinator.next_chunk().unwrap();
    assert_eq!(coordinator.finish_attempt(1, FetchOutcome::FatalError), Ok(ChunkStatus::Failed));
    assert_eq!(
        coordinator.states()[1],
        ChunkState {
            bytes_received: 0,
            attempt_count: 1,
            status: ChunkStatus::Failed,
            last_error: Some(FetchOutcome::FatalError),
        }
    );
    assert!(!coordinator.is_done());
    fetch_whole(&mut coordinator, &first);
    let result = coordinator.result().unwrap();
    assert_eq!(result.overall_status, OverallStatus::PartialFailure);
    assert_eq!(result.chunk_outcomes[1].last_error, Some(FetchOutcome::FatalError));
    assert!(result.fatal);
}

#[test]
fn every_chunk_failed_is_failed() {
    let mut coordinator = DownloadCoordinator::new(1000, 2, 1).unwrap();
    coordinator.next_chunk().unwrap();
    coordinator.next_chunk().unwrap();
    assert_eq!(coordinator.finish_attempt(0, FetchOutcome::FatalError), Ok(ChunkStatus::Failed));
    assert_eq!(coordinator.finish_attempt(1, FetchOutcome::FatalError), Ok(ChunkStatus::Failed));
    assert_eq!(coordinator.result().unwrap().overall_status, OverallStatus::Failed);
}

#[test]
fn success_with_missing_bytes_is_a_range_mismatch() {
    let mut coordinator = DownloadCoordinator::new(100, 1, 1).unwrap();
    coordinator.next_chunk().unwrap();
    assert_eq!(coordinator.record_progress(0, 99), Ok(99));
    assert_eq!(coordinator.finish_attempt(0, FetchOutcome::Success), Ok(ChunkStatus::Pending));
    assert_eq!(
        coordinator.states()[0],
        ChunkState {
            bytes_received: 0,
            attempt_count: 1,
            status: ChunkStatus::Pending,
            last_error: Some(FetchOutcome::RangeMismatch),
        }
    );
    coordinator.next_chunk().unwrap();
    assert_eq!(coordinator.finish_attempt(0, FetchOutcome::Success), Ok(ChunkStatus::Failed));
    assert_eq!(coordinator.states()[0].last_error, Some(FetchOutcome::RangeMismatch));
}

#[test]
fn progress_is_counted_and_bounded() {
    let mut coordinator = DownloadCoordinator::new(1000, 3, 2).unwrap();
    assert_eq!(coordinator.snapshot_progress(), (0, 1000));
    let first = coordinator.next_chunk().unwrap();
    let second = coordinator.next_chunk().unwrap();
    assert_eq!(coordinator.record_progress(0, 100), Ok(100));
    assert_eq!(coordinator.record_progress(0, 33), Ok(133));
    assert_eq!(coordinator.record_progress(1, 333), Ok(333));
    assert_eq!(coordinator.snapshot_progress(), (466, 1000));
    assert_eq!(coordinator.record_progress(0, 200), Ok(333));
    assert_eq!(coordinator.finish_attempt(first.index, FetchOutcome::Success), Ok(ChunkStatus::Succeeded));
    assert_eq!(coordinator.finish_attempt(second.index, FetchOutcome::Success), Ok(ChunkStatus::Succeeded));
    assert_eq!(coordinator.snapshot_progress(), (666, 1000));
    let third = coordinator.next_chunk().unwrap();
    fetch_whole(&mut coordinator, &third);
    assert_eq!(coordinator.snapshot_progress(), (1000, 1000));
    assert_eq!(coordinator.result().unwrap().total_bytes_written, 1000);
}

#[test]
fn retry_resets_the_progress_of_its_chunk() {
    let mut coordinator = DownloadCoordinator::new(1000, 2, 3).unwrap();
    coordinator.next_chunk().unwrap();
    coordinator.next_chunk().unwrap();
    assert_eq!(coordinator.record_progress(0, 400), Ok(400));
    assert_eq!(coordinator.record_progress(1, 250), Ok(250));
    assert_eq!(coordinator.snapshot_progress(), (650, 1000));
    assert_eq!(coordinator.finish_attempt(0, FetchOutcome::TransientError), Ok(ChunkStatus::Pending));
    assert_eq!(coordinator.snapshot_progress(), (250, 1000));
}

#[test]
fn progress_outside_the_window_is_refused() {
    let mut coordinator = DownloadCoordinator::new(1000, 3, 2).unwrap();
    coordinator.next_chunk().unwrap();
    assert_eq!(coordinator.record_progress(0, 334), Err(ReportError::OutsideWindow));
    assert_eq!(coordinator.record_progress(0, usize::MAX), Err(ReportError::OutsideWindow));
    assert_eq!(coordinator.record_progress(0, 300), Ok(300));
    assert_eq!(coordinator.record_progress(0, 34), Err(ReportError::OutsideWindow));
    assert_eq!(coordinator.states()[0].bytes_received, 300);
    assert_eq!(coordinator.record_progress(0, 33), Ok(333));
    assert_eq!(coordinator.record_progress(0, 0), Ok(333));
}

#[test]
fn reports_on_unknown_or_idle_chunks_are_refused() {
    let mut coordinator = DownloadCoordinator::new(1000, 3, 2).unwrap();
    assert_eq!(coordinator.record_progress(3, 1), Err(ReportError::UnknownChunk));
    assert_eq!(coordinator.finish_attempt(3, FetchOutcome::Success), Err(ReportError::UnknownChunk));
    assert_eq!(coordinator.record_progress(0, 1), Err(ReportError::NotInFlight));
    assert_eq!(coordinator.finish_attempt(0, FetchOutcome::Success), Err(ReportError::NotInFlight));
    let first = coordinator.next_chunk().unwrap();
    fetch_whole(&mut coordinator, &first);
    assert_eq!(coordinator.record_progress(0, 0), Err(ReportError::NotInFlight));
    assert_eq!(coordinator.finish_attempt(0, FetchOutcome::FatalError), Err(ReportError::NotInFlight));
    assert_eq!(coordinator.states()[0].status, ChunkStatus::Succeeded);
    assert_eq!(coordinator.states()[0].attempt_count, 1);
}

#[test]
fn cancel_mid_download_stops_dispatch_and_fails() {
    let mut coordinator = DownloadCoordinator::new(1000, 4, 2).unwrap();
    let first = coordinator.next_chunk().unwrap();
    let _second = coordinator.next_chunk().unwrap();
    fetch_whole(&mut coordinator, &first);
    assert_eq!(coordinator.record_progress(1, 10), Ok(10));

    assert!(coordinator.cancel());
    assert!(coordinator.is_canceled());
    assert!(coordinator.is_done());
    assert_eq!(coordinator.next_chunk(), None);
    assert_eq!(
        statuses(&coordinator),
        vec![
            ChunkStatus::Succeeded,
            ChunkStatus::Canceled,
            ChunkStatus::Canceled,
            ChunkStatus::Canceled,
        ]
    );
    assert_eq!(coordinator.finish_attempt(1, FetchOutcome::Success), Err(ReportError::NotInFlight));
    assert_eq!(coordinator.record_progress(1, 1), Err(ReportError::NotInFlight));

    let result = coordinator.result().unwrap();
    assert_eq!(result.overall_status, OverallStatus::Failed);
    assert!(result.canceled);
    assert_eq!(result.chunk_outcomes[0].status, ChunkStatus::Succeeded);
    assert_eq!(result.chunk_outcomes[1].status, ChunkStatus::Canceled);
    assert_eq!(result.chunk_outcomes[3].status, ChunkStatus::Canceled);
    assert_eq!(result.chunk_outcomes[3].start_offset, 750);
    assert_eq!(result.chunk_outcomes[3].end_offset, 999);
    assert_eq!(result.total_bytes_written, 260);
}

#[test]
fn cancel_before_any_dispatch_cancels_every_chunk() {
    let mut coordinator = DownloadCoordinator::new(10, 100, 2).unwrap();
    assert!(coordinator.cancel());
    assert_eq!(statuses(&coordinator), vec![ChunkStatus::Canceled; 10]);
    assert_eq!(coordinator.next_chunk(), None);
    assert_eq!(coordinator.result().unwrap().overall_status, OverallStatus::Failed);
}

#[test]
fn cancel_after_the_end_changes_nothing() {
    let mut coordinator = DownloadCoordinator::new(100, 2, 0).unwrap();
    let first = coordinator.next_chunk().unwrap();
    let second = coordinator.next_chunk().unwrap();
    fetch_whole(&mut coordinator, &first);
    fetch_whole(&mut coordinator, &second);
    let before = coordinator.result().unwrap();
    assert!(!coordinator.cancel());
    assert!(!coordinator.is_canceled());
    assert_eq!(coordinator.result().unwrap(), before);
    assert_eq!(before.overall_status, OverallStatus::Complete);
    assert!(!coordinator.cancel());
}

#[test]
fn result_waits_for_every_chunk() {
    let mut coordinator = DownloadCoordinator::new(100, 2, 0).unwrap();
    let first = coordinator.next_chunk().unwrap();
    fetch_whole(&mut coordinator, &first);
    assert!(!coordinator.is_done());
    assert_eq!(coordinator.result(), None);
    let second = coordinator.next_chunk().unwrap();
    assert_eq!(coordinator.result(), None);
    fetch_whole(&mut coordinator, &second);
    assert!(coordinator.is_done());
    assert!(coordinator.result().is_some());
}

#[test]
fn terminal_statuses_are_the_three_final_ones() {
    assert!(!ChunkStatus::Pending.is_terminal());
    assert!(!ChunkStatus::InFlight.is_terminal());
    assert!(ChunkStatus::Succeeded.is_terminal());
    assert!(ChunkStatus::Failed.is_terminal());
    assert!(ChunkStatus::Canceled.is_terminal());
}
