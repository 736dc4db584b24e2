use file_shredder::chunk::{chunk_plan, chunk_range, Chunk};
use file_shredder::engine::{JobAction, JobEvent, JobPhase, ShredJob};
use file_shredder::errors::CustomError;
use file_shredder::random::generate_random_array;
use file_shredder::walker::{EntryKind, TreeWalk, WalkAction, WalkEvent, WalkPhase};

fn assert_partition(len: u64, threads: u32) {
    let plan = chunk_plan(len, threads);
    assert_eq!(plan.len(), threads as usize);
    assert_eq!(plan[0].start, 0);
    assert_eq!(plan[plan.len() - 1].end, len);
    for i in 0..plan.len() {
        assert!(plan[i].start <= plan[i].end);
        if i + 1 < plan.len() {
            assert_eq!(plan[i].end, plan[i + 1].start);
        }
    }
    let total: u64 = plan.iter().map(|c| c.end - c.start).sum();
    assert_eq!(total, len);
}

#[test]
fn test_generate_random_array() {
    let result = generate_random_array(5);
    assert_eq!(result.len(), 5);
}

#[test]
fn random_array_is_not_left_zeroed() {
    let result = generate_random_array(4096);
    assert_eq!(result.len(), 4096);
    assert!(result.iter().any(|b| *b != 0));
}

#[test]
fn random_array_of_length_zero_is_empty() {
    assert!(generate_random_array(0).is_empty());
}

#[test]
fn chunk_range_exact_values() {
    assert_eq!(chunk_range(0, 3, 10), Chunk { start: 0, end: 3 });
    assert_eq!(chunk_range(1, 3, 10), Chunk { start: 3, end: 6 });
    assert_eq!(chunk_range(2, 3, 10), Chunk { start: 6, end: 10 });
}

#[test]
fn chunk_plan_last_worker_takes_remainder() {
    let plan = chunk_plan(1024 * 1024 + 3, 4);
    assert_eq!(plan[0], Chunk { start: 0, end: 262144 });
    assert_eq!(plan[3], Chunk { start: 786432, end: 1048579 });
}

#[test]
fn chunk_plan_partitions_the_file() {
    for len in [0u64, 1, 2, 7, 10, 34, 1000, 1024 * 1024] {
        for threads in [1u32, 2, 3, 4, 5, 8, 64] {
            assert_partition(len, threads);
        }
    }
}

#[test]
fn chunk_plan_more_threads_than_bytes() {
    let plan = chunk_plan(3, 5);
    assert_eq!(
        plan,
        vec![
            Chunk { start: 0, end: 0 },
            Chunk { start: 0, end: 0 },
            Chunk { start: 0, end: 0 },
            Chunk { start: 0, end: 0 },
            Chunk { start: 0, end: 3 },
        ]
    );
}

#[test]
fn chunk_plan_empty_file_has_only_empty_ranges() {
    let plan = chunk_plan(0, 4);
    assert_eq!(plan.len(), 4);
    assert!(plan.iter().all(|c| c.start == 0 && c.end == 0));
}

#[test]
fn chunk_plan_single_thread_covers_whole_file() {
    assert_eq!(chunk_plan(34, 1), vec![Chunk { start: 0, end: 34 }]);
}

#[test]
fn chunk_plan_largest_file_size() {
    let plan = chunk_plan(u64::MAX, 2);
    assert_eq!(plan[0], Chunk { start: 0, end: u64::MAX / 2 });
    assert_eq!(plan[1], Chunk { start: u64::MAX / 2, end: u64::MAX });
}

#[test]
fn new_job_rejects_zero_passes() {
    assert_eq!(ShredJob::new(0, 1), Err(CustomError::InvalidPassesErr));
    assert_eq!(ShredJob::new(0, 0), Err(CustomError::InvalidPassesErr));
}

#[test]
fn new_job_rejects_zero_threads() {
    assert_eq!(ShredJob::new(1, 0), Err(CustomError::InvalidThreadCountErr));
}

#[test]
fn new_job_starts_by_reading_the_length() {
    let job = ShredJob::new(3, 2).unwrap();
    assert_eq!(job.phase, JobPhase::Measuring);
    assert!(matches!(job.next_action(), JobAction::ReadLength));
}

#[test]
fn job_runs_passes_in_order_then_removes() {
    let mut job = ShredJob::new(3, 2).unwrap();
    job.on_event(JobEvent::LengthRead(34));
    for pass in 1..=3u32 {
        match job.next_action() {
            JobAction::OverwritePass { pass: p, chunks } => {
                assert_eq!(p, pass);
                assert_eq!(chunks, vec![Chunk { start: 0, end: 17 }, Chunk { start: 17, end: 34 }]);
            }
            other => panic!("expected a pass, got {:?}", other),
        }
        job.on_event(JobEvent::PassCompleted);
    }
    assert!(matches!(job.next_action(), JobAction::RemoveFile));
    job.on_event(JobEvent::FileRemoved);
    assert_eq!(job.phase, JobPhase::Done);
    assert!(matches!(job.next_action(), JobAction::Finish));
}

#[test]
fn job_on_empty_file_still_removes_it() {
    let mut job = ShredJob::new(1, 1).unwrap();
    job.on_event(JobEvent::LengthRead(0));
    match job.next_action() {
        JobAction::OverwritePass { pass, chunks } => {
            assert_eq!(pass, 1);
            assert_eq!(chunks, vec![Chunk { start: 0, end: 0 }]);
        }
        other => panic!("expected a pass, got {:?}", other),
    }
    job.on_event(JobEvent::PassCompleted);
    assert!(matches!(job.next_action(), JobAction::RemoveFile));
    job.on_event(JobEvent::FileRemoved);
    assert!(matches!(job.next_action(), JobAction::Finish));
}

#[test]
fn job_single_thread_overwrites_whole_file() {
    let mut job = ShredJob::new(2, 1).unwrap();
    job.on_event(JobEvent::LengthRead(1000));
    match job.next_action() {
        JobAction::OverwritePass { chunks, .. } => {
            assert_eq!(chunks, vec![Chunk { start: 0, end: 1000 }]);
        }
        other => panic!("expected a pass, got {:?}", other),
    }
}

#[test]
fn job_on_missing_file_aborts() {
    let mut job = ShredJob::new(1, 1).unwrap();
    job.on_event(JobEvent::OperationFailed);
    assert_eq!(job.phase, JobPhase::Failed);
    assert!(matches!(job.next_action(), JobAction::Abort));
}

#[test]
fn job_failed_pass_skips_remaining_passes_and_removal() {
    let mut job = ShredJob::new(5, 4).unwrap();
    job.on_event(JobEvent::LengthRead(100));
    job.on_event(JobEvent::PassCompleted);
    job.on_event(JobEvent::OperationFailed);
    job.on_event(JobEvent::PassCompleted);
    job.on_event(JobEvent::FileRemoved);
    assert_eq!(job.phase, JobPhase::Failed);
    assert!(matches!(job.next_action(), JobAction::Abort));
}

#[test]
fn job_failed_removal_is_reported() {
    let mut job = ShredJob::new(1, 2).unwrap();
    job.on_event(JobEvent::LengthRead(10));
    job.on_event(JobEvent::PassCompleted);
    job.on_event(JobEvent::OperationFailed);
    assert!(matches!(job.next_action(), JobAction::Abort));
}

#[test]
fn job_unexpected_event_fails() {
    let mut job = ShredJob::new(2, 2).unwrap();
    job.on_event(JobEvent::PassCompleted);
    assert_eq!(job.phase, JobPhase::Failed);
}

#[test]
fn walk_tree_of_files_and_subdirectories() {
    let mut walk = TreeWalk::new();
    let entries = [
        EntryKind::Root,
        EntryKind::File,
        EntryKind::Directory,
        EntryKind::File,
        EntryKind::Directory,
        EntryKind::Directory,
        EntryKind::File,
    ];
    let mut shredded = 0;
    for kind in entries {
        assert_eq!(walk.next_action(), WalkAction::NextEntry);
        walk.on_event(WalkEvent::Entry(kind));
        if walk.next_action() == WalkAction::ShredFile {
            shredded += 1;
            walk.on_event(WalkEvent::FileShredded);
        }
    }
    assert_eq!(shredded, 3);
    assert_eq!(walk.next_action(), WalkAction::NextEntry);
    walk.on_event(WalkEvent::TraversalEnded);
    assert_eq!(walk.next_action(), WalkAction::RemoveTree);
    walk.on_event(WalkEvent::TreeRemoved);
    assert_eq!(walk.phase, WalkPhase::Done);
    assert_eq!(walk.next_action(), WalkAction::Finish);
}

#[test]
fn walk_empty_tree_removes_root() {
    let mut walk = TreeWalk::new();
    walk.on_event(WalkEvent::Entry(EntryKind::Root));
    walk.on_event(WalkEvent::TraversalEnded);
    assert_eq!(walk.next_action(), WalkAction::RemoveTree);
    walk.on_event(WalkEvent::TreeRemoved);
    assert_eq!(walk.next_action(), WalkAction::Finish);
}

#[test]
fn walk_with_unwritable_file_never_removes_tree() {
    let mut walk = TreeWalk::new();
    walk.on_event(WalkEvent::Entry(EntryKind::Root));
    walk.on_event(WalkEvent::Entry(EntryKind::File));
    assert_eq!(walk.next_action(), WalkAction::ShredFile);
    walk.on_event(WalkEvent::FileFailed);
    assert_eq!(walk.next_action(), WalkAction::Abort);
    walk.on_event(WalkEvent::Entry(EntryKind::File));
    walk.on_event(WalkEvent::TraversalEnded);
    assert_eq!(walk.phase, WalkPhase::Failed);
    assert_eq!(walk.next_action(), WalkAction::Abort);
}

#[test]
fn walk_of_missing_root_aborts() {
    let mut walk = TreeWalk::new();
    walk.on_event(WalkEvent::WalkError);
    assert_eq!(walk.next_action(), WalkAction::Abort);
}

#[test]
fn walk_failed_removal_is_reported() {
    let mut walk = TreeWalk::new();
    walk.on_event(WalkEvent::TraversalEnded);
    walk.on_event(WalkEvent::RemovalFailed);
    assert_eq!(walk.next_action(), WalkAction::Abort);
}

#[test]
fn walk_other_entries_are_left_to_removal() {
    let mut walk = TreeWalk::new();
    walk.on_event(WalkEvent::Entry(EntryKind::Root));
    walk.on_event(WalkEvent::Entry(EntryKind::Other));
    assert_eq!(walk.next_action(), WalkAction::NextEntry);
}

#[test]
fn error_messages() {
    assert_eq!(CustomError::NotEnoughArgumentsErr.message(), "Not enough arguments provided");
    assert_eq!(CustomError::PathNonExistErr.message(), "Path doesn't exist");
    assert_eq!(CustomError::InvalidPassesErr.message(), "Passes value is invalid");
    assert_eq!(CustomError::InvalidThreadCountErr.message(), "Thread count value is invalid");
}
