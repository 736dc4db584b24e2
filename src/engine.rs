use vstd::prelude::*;
use crate::chunk::{
    Chunk,
    chunk_plan,
    is_chunk_of,
    lemma_empty_file_empty_chunks,
    lemma_single_worker_whole_file,
};
use crate::errors::CustomError;

verus! {

/// Where a job that overwrites and then deletes one file stands.
#[derive(Debug, Clone, Copy, PartialEq, Eq, Structural)]
pub enum JobPhase {
    /// The file's length is still to be read from its metadata.
    Measuring,
    /// `completed` passes are done; the next one is to be run.
    Overwriting { completed: u32 },
    /// Every pass is done; the file is to be deleted.
    Removing,
    /// The file was overwritten and deleted.
    Done,
    /// An operation failed; nothing more is to be done.
    Failed,
}

/// The outcome of the operation that a job asked for last.
#[derive(Debug, Clone, Copy, PartialEq, Eq, Structural)]
pub enum JobEvent {
    /// The file's metadata gives this length in bytes.
    LengthRead(u64),
    /// Every worker of the current pass wrote and flushed its range.
    PassCompleted,
    /// The file was deleted.
    FileRemoved,
    /// The operation failed: an I/O error, or a worker that did not finish.
    OperationFailed,
}

/// The operation that a job asks its driver to perform next.
#[derive(Debug)]
pub enum JobAction {
    /// Read the file's length once.
    ReadLength,
    /// Run pass number `pass` (counted from 1): one worker per chunk, each
    /// opening its own handle, writing random bytes over its range and
    /// flushing; then wait for all of them.
    OverwritePass { pass: u32, chunks: Vec<Chunk> },
    /// Delete the file.
    RemoveFile,
    /// Report success.
    Finish,
    /// Report the failure of the last operation.
    Abort,
}

/// One shredding job: `passes` sequential overwrite passes over a file of
/// `file_size` bytes, each split among `threads` workers, then deletion.
#[derive(Debug, Clone, Copy, PartialEq, Eq, Structural)]
pub struct ShredJob {
    pub passes: u32,
    pub threads: u32,
    pub file_size: u64,
    pub phase: JobPhase,
}

/// The job after `ev` is reported to it. The length is taken once, before the
/// first pass; passes follow one after another; the file is deleted after the
/// last pass; any failure, or an outcome that answers no request, ends the job
/// as failed; a finished or failed job stays as it is.
pub open spec fn job_step(job: ShredJob, ev: JobEvent) -> ShredJob {
    match job.phase {
        JobPhase::Measuring => match ev {
            JobEvent::LengthRead(n) => ShredJob {
                file_size: n,
                phase: JobPhase::Overwriting { completed: 0 },
                ..job
            },
            _ => ShredJob { phase: JobPhase::Failed, ..job },
        },
        JobPhase::Overwriting { completed } => match ev {
            JobEvent::PassCompleted => if completed + 1 == job.passes {
                ShredJob { phase: JobPhase::Removing, ..job }
            } else {
                ShredJob { phase: JobPhase::Overwriting { completed: (completed + 1) as u32 }, ..job }
            },
            _ => ShredJob { phase: JobPhase::Failed, ..job },
        },
        JobPhase::Removing => match ev {
            JobEvent::FileRemoved => ShredJob { phase: JobPhase::Done, ..job },
            _ => ShredJob { phase: JobPhase::Failed, ..job },
        },
        JobPhase::Done => job,
        JobPhase::Failed => job,
    }
}

/// `a` is the operation that `job` asks for.
pub open spec fn job_action_is(job: ShredJob, a: JobAction) -> bool {
    match job.phase {
        JobPhase::Measuring => a is ReadLength,
        JobPhase::Overwriting { completed } => {
            &&& a matches JobAction::OverwritePass { pass, chunks }
            &&& pass == completed + 1
            &&& chunks@.len() == job.threads
            &&& forall|i: int|
                0 <= i < job.threads ==> is_chunk_of(
                    #[trigger] chunks@[i],
                    i,
                    job.threads as int,
                    job.file_size as int,
                )
        },
        JobPhase::Removing => a is RemoveFile,
        JobPhase::Done => a is Finish,
        JobPhase::Failed => a is Abort,
    }
}

/// The job after each outcome of `evs` is reported to it in turn.
pub open spec fn job_run(job: ShredJob, evs: Seq<JobEvent>) -> ShredJob
    decreases evs.len(),
{
    if evs.len() == 0 {
        job
    } else {
        job_step(job_run(job, evs.drop_last()), evs.last())
    }
}

/// How many completed passes `evs` reports.
pub open spec fn passes_reported(evs: Seq<JobEvent>) -> nat
    decreases evs.len(),
{
    if evs.len() == 0 {
        0
    } else {
        passes_reported(evs.drop_last()) + if evs.last() is PassCompleted {
            1nat
        } else {
            0nat
        }
    }
}

/// `evs` reports that the file was deleted.
pub open spec fn removal_reported(evs: Seq<JobEvent>) -> bool {
    exists|k: int| 0 <= k < evs.len() && #[trigger] evs[k] is FileRemoved
}

/// `evs` reports a failed operation.
pub open spec fn failure_reported(evs: Seq<JobEvent>) -> bool {
    exists|k: int| 0 <= k < evs.len() && #[trigger] evs[k] is OperationFailed
}

proof fn lemma_job_run_invariant(job: ShredJob, evs: Seq<JobEvent>)
    requires
        job.wf(),
        job.phase == JobPhase::Measuring,
    ensures
        job_run(job, evs).wf(),
        job_run(job, evs).passes == job.passes,
        job_run(job, evs).threads == job.threads,
        job_run(job, evs).phase is Measuring ==> evs.len() == 0,
        job_run(job, evs).phase matches JobPhase::Overwriting { completed } ==> passes_reported(evs)
            == completed && !removal_reported(evs) && !failure_reported(evs),
        job_run(job, evs).phase is Removing ==> passes_reported(evs) == job.passes
            && !removal_reported(evs) && !failure_reported(evs),
        job_run(job, evs).phase is Done ==> passes_reported(evs) >= job.passes && removal_reported(
            evs,
        ),
    decreases evs.len(),
{
    if evs.len() > 0 {
        let pre = evs.drop_last();
        let e = evs.last();
        lemma_job_run_invariant(job, pre);
        assert forall|k: int| 0 <= k < pre.len() implies #[trigger] pre[k] == evs[k] by {}
        assert(evs[evs.len() - 1] == e);
        assert(passes_reported(evs) == passes_reported(pre) + if e is PassCompleted {
            1nat
        } else {
            0nat
        });
        assert(job_run(job, evs) == job_step(job_run(job, pre), e));
        if job_run(job, pre).phase is Measuring {
            assert(pre.len() == 0);
            assert(passes_reported(pre) == 0);
        }
        if removal_reported(pre) {
            let k = choose|k: int| 0 <= k < pre.len() && #[trigger] pre[k] is FileRemoved;
            assert(evs[k] is FileRemoved);
        }
        if failure_reported(evs) {
            let k = choose|k: int| 0 <= k < evs.len() && #[trigger] evs[k] is OperationFailed;
            if k < pre.len() {
                assert(pre[k] is OperationFailed);
            }
        }
        if removal_reported(evs) {
            let k = choose|k: int| 0 <= k < evs.len() && #[trigger] evs[k] is FileRemoved;
            if k < pre.len() {
                assert(pre[k] is FileRemoved);
            }
        }
    }
}

proof fn lemma_job_run_append(job: ShredJob, a: Seq<JobEvent>, b: Seq<JobEvent>)
    ensures
        job_run(job, a + b) == job_run(job_run(job, a), b),
    decreases b.len(),
{
    if b.len() == 0 {
        assert(a + b =~= a);
    } else {
        assert((a + b).drop_last() =~= a + b.drop_last());
        lemma_job_run_append(job, a, b.drop_last());
    }
}

/// A job that reports success has been told, since it started, that every
/// pass completed and that the file was deleted.
pub proof fn lemma_job_done_means_removed(passes: u32, threads: u32, evs: Seq<JobEvent>)
    requires
        passes >= 1,
        threads >= 1,
    ensures
        ({
            let job = ShredJob { passes, threads, file_size: 0, phase: JobPhase::Measuring };
            job_run(job, evs).phase is Done ==> passes_reported(evs) >= passes && removal_reported(
                evs,
            )
        }),
{
    let job = ShredJob { passes, threads, file_size: 0, phase: JobPhase::Measuring };
    lemma_job_run_invariant(job, evs);
}

/// A job is never asked to delete the file before it has been told that every
/// pass completed, nor after any failure.
pub proof fn lemma_job_removes_only_after_all_passes(
    passes: u32,
    threads: u32,
    evs: Seq<JobEvent>,
)
    requires
        passes >= 1,
        threads >= 1,
    ensures
        ({
            let job = ShredJob { passes, threads, file_size: 0, phase: JobPhase::Measuring };
            job_run(job, evs).phase is Removing ==> passes_reported(evs) == passes
                && !failure_reported(evs)
        }),
{
    let job = ShredJob { passes, threads, file_size: 0, phase: JobPhase::Measuring };
    lemma_job_run_invariant(job, evs);
}

/// Fail-fast: once an operation fails before the job has finished, the job
/// stays failed whatever is reported afterwards, and so asks for nothing but
/// to report the failure.
pub proof fn lemma_job_failure_is_final(job: ShredJob, k: int, evs: Seq<JobEvent>)
    requires
        job.wf(),
        0 <= k < evs.len(),
        evs[k] is OperationFailed,
        !(job_run(job, evs.take(k)).phase is Done),
    ensures
        job_run(job, evs).phase is Failed,
{
    let mid = job_run(job, evs.take(k));
    assert(evs =~= evs.take(k) + evs.skip(k));
    lemma_job_run_append(job, evs.take(k), evs.skip(k));
    let rest = evs.skip(k);
    assert(rest =~= seq![evs[k]] + rest.skip(1));
    lemma_job_run_append(mid, seq![evs[k]], rest.skip(1));
    assert(seq![evs[k]].drop_last() =~= Seq::<JobEvent>::empty());
    assert(job_run(mid, Seq::<JobEvent>::empty()) == mid);
    assert(job_run(mid, seq![evs[k]]) == job_step(mid, evs[k]));
    let failed = job_step(mid, evs[k]);
    assert(failed.phase is Failed);
    lemma_failed_job_stays_failed(failed, rest.skip(1));
}

proof fn lemma_failed_job_stays_failed(job: ShredJob, evs: Seq<JobEvent>)
    requires
        job.phase is Failed,
    ensures
        job_run(job, evs) == job,
    decreases evs.len(),
{
    if evs.len() > 0 {
        lemma_failed_job_stays_failed(job, evs.drop_last());
    }
}

/// With one thread, each pass overwrites the whole file as a single range.
pub proof fn lemma_single_thread_pass_is_whole_file(job: ShredJob, a: JobAction)
    requires
        job.wf(),
        job.threads == 1,
        job.phase is Overwriting,
        job_action_is(job, a),
    ensures
        a matches JobAction::OverwritePass { chunks, .. } ==> chunks@.len() == 1
            && chunks@[0].start == 0 && chunks@[0].end == job.file_size,
{
    lemma_single_worker_whole_file(job.file_size as int);
}

/// On an empty file every worker of a pass gets an empty range, so a pass
/// writes nothing.
pub proof fn lemma_empty_file_pass_writes_nothing(job: ShredJob, a: JobAction)
    requires
        job.wf(),
        job.file_size == 0,
        job.phase is Overwriting,
        job_action_is(job, a),
    ensures
        a matches JobAction::OverwritePass { chunks, .. } ==> forall|i: int|
            0 <= i < chunks@.len() ==> (#[trigger] chunks@[i]).start == 0 && chunks@[i].end == 0,
{
    lemma_empty_file_empty_chunks(job.threads as int);
    if let JobAction::OverwritePass { chunks, .. } = a {
        assert forall|i: int| 0 <= i < chunks@.len() implies (#[trigger] chunks@[i]).start == 0
            && chunks@[i].end == 0 by {
            assert(is_chunk_of(chunks@[i], i, job.threads as int, 0));
        }
    }
}

impl ShredJob {
    pub open spec fn wf(&self) -> bool {
        &&& self.passes >= 1
        &&& self.threads >= 1
        &&& self.phase matches JobPhase::Overwriting { completed } ==> completed < self.passes
    }

    /// Starts a job, refusing zero passes and zero threads before any I/O.
    pub fn new(passes: u32, threads: u32) -> (r: Result<ShredJob, CustomError>)
        ensures
            r is Ok <==> passes >= 1 && threads >= 1,
            passes == 0 ==> r == Err::<ShredJob, CustomError>(CustomError::InvalidPassesErr),
            passes >= 1 && threads == 0 ==> r == Err::<ShredJob, CustomError>(
                CustomError::InvalidThreadCountErr,
            ),
            r matches Ok(job) ==> job.wf() && job == (ShredJob {
                passes,
                threads,
                file_size: 0,
                phase: JobPhase::Measuring,
            }),
    {
        if passes == 0 {
            return Err(CustomError::InvalidPassesErr);
        }
        if threads == 0 {
            return Err(CustomError::InvalidThreadCountErr);
        }
        Ok(ShredJob { passes, threads, file_size: 0, phase: JobPhase::Measuring })
    }

    /// The operation to perform next.
    pub fn next_action(&self) -> (a: JobAction)
        requires
            self.wf(),
        ensures
            job_action_is(*self, a),
    {
        match self.phase {
            JobPhase::Measuring => JobAction::ReadLength,
            JobPhase::Overwriting { completed } => JobAction::OverwritePass {
                pass: completed + 1,
                chunks: chunk_plan(self.file_size, self.threads),
            },
            JobPhase::Removing => JobAction::RemoveFile,
            JobPhase::Done => JobAction::Finish,
            JobPhase::Failed => JobAction::Abort,
        }
    }

    /// Takes in the outcome of the last operation.
    pub fn on_event(&mut self, ev: JobEvent)
        requires
            old(self).wf(),
        ensures
            final(self).wf(),
            *final(self) == job_step(*old(self), ev),
    {
        match self.phase {
            JobPhase::Measuring => match ev {
                JobEvent::LengthRead(n) => {
                    self.file_size = n;
                    self.phase = JobPhase::Overwriting { completed: 0 };
                },
                _ => {
                    self.phase = JobPhase::Failed;
                },
            },
            JobPhase::Overwriting { completed } => match ev {
                JobEvent::PassCompleted => {
                    if completed + 1 == self.passes {
                        self.phase = JobPhase::Removing;
                    } else {
                        self.phase = JobPhase::Overwriting { completed: completed + 1 };
                    }
                },
                _ => {
                    self.phase = JobPhase::Failed;
                },
            },
            JobPhase::Removing => match ev {
                JobEvent::FileRemoved => {
                    self.phase = JobPhase::Done;
                },
                _ => {
                    self.phase = JobPhase::Failed;
                },
            },
            JobPhase::Done => {},
            JobPhase::Failed => {},
        }
    }
}

} // verus!
