//! The life cycle of a pipeline run: which job an agent may take next, and
//! how jobs, their steps and the pipeline move from one status to the next
//! when agents report progress.
use vstd::prelude::*;

use crate::status::{is_terminal, JobStatus, PipelineStatus};

verus! {

/// A pipeline as stored: its identity, status and timestamps (Unix seconds).
#[derive(Debug, Clone, Copy, PartialEq, Eq, Structural)]
pub struct PipelineRow {
    pub id: u128,
    pub status: PipelineStatus,
    pub started_at: Option<i64>,
    pub finished_at: Option<i64>,
}

/// A job of a pipeline.
#[derive(Debug, Clone, Copy, PartialEq, Eq, Structural)]
pub struct JobRow {
    pub id: u128,
    pub status: JobStatus,
    pub created_at: i64,
    pub started_at: Option<i64>,
    pub finished_at: Option<i64>,
    pub agent_id: Option<u128>,
}

/// A step of a job.
#[derive(Debug, Clone, Copy, PartialEq, Eq, Structural)]
pub struct StepRow {
    pub id: u128,
    pub job_id: u128,
    pub status: JobStatus,
    pub exit_code: Option<i32>,
    pub started_at: Option<i64>,
    pub finished_at: Option<i64>,
}

/// An edge of the job graph: the downstream job waits for the upstream one.
#[derive(Debug, Clone, Copy, PartialEq, Eq, Structural)]
pub struct JobDependency {
    pub upstream_id: u128,
    pub downstream_id: u128,
}

/// A notification published when a pipeline or a job changes status.
#[derive(Debug, Clone, Copy, PartialEq, Eq, Structural)]
#[allow(inconsistent_fields)]
pub enum EventMessage {
    UpdatePipelineStatus { pipeline: u128, status: PipelineStatus },
    UpdateJobStatus { pipeline: u128, job: u128, status: JobStatus },
}

/// Answer to an agent that reports a finished job.
#[derive(Debug, Clone, Copy, PartialEq, Eq, Structural)]
pub enum JobFinishResponse {
    Accepted,
    JobNotFound,
}

/// Answer to an agent that reports a started step.
#[derive(Debug, Clone, Copy, PartialEq, Eq, Structural)]
pub enum StepStartedResponse {
    Accepted,
    StepNotFound,
}

/// Answer to an agent that reports a finished step.
#[derive(Debug, Clone, Copy, PartialEq, Eq, Structural)]
pub enum StepFinishResponse {
    Accepted,
    StepNotFound,
}

/// One pipeline with all of its jobs, steps and job dependencies.
pub struct PipelineRun {
    pub pipeline: PipelineRow,
    pub jobs: Vec<JobRow>,
    pub steps: Vec<StepRow>,
    pub depends: Vec<JobDependency>,
}

/// The mathematical value of a [`PipelineRun`].
#[verifier::ext_equal]
pub struct RunView {
    pub pipeline: PipelineRow,
    pub jobs: Seq<JobRow>,
    pub steps: Seq<StepRow>,
    pub depends: Seq<JobDependency>,
}

impl View for PipelineRun {
    type V = RunView;

    open spec fn view(&self) -> RunView {
        RunView {
            pipeline: self.pipeline,
            jobs: self.jobs@,
            steps: self.steps@,
            depends: self.depends@,
        }
    }
}

// ---------------------------------------------------------------------
// Finishing a job
// ---------------------------------------------------------------------

/// The status a job gets when its agent reports it finished.
pub open spec fn finished_job_status(success: bool) -> JobStatus {
    if success {
        JobStatus::Success
    } else {
        JobStatus::Failed
    }
}

/// The status a still open step gets when its job finishes.
pub open spec fn closed_step_status(success: bool) -> JobStatus {
    if success {
        JobStatus::Success
    } else {
        JobStatus::Skipped
    }
}

/// The job that is running under `id`.
pub open spec fn is_running_job(j: JobRow, id: u128) -> bool {
    j.id == id && j.status == JobStatus::Running
}

/// A job row after its agent reported it finished.
pub open spec fn finish_job_row(j: JobRow, id: u128, success: bool, now: i64) -> JobRow {
    if is_running_job(j, id) {
        JobRow { status: finished_job_status(success), finished_at: Some(now), ..j }
    } else {
        j
    }
}

/// A step row after its job finished: a step still running fails, a step
/// that has not run yet succeeds or is skipped with the job, a finished
/// step stays as it is.
pub open spec fn close_step_row(s: StepRow, job_id: u128, success: bool, now: i64) -> StepRow {
    if s.job_id == job_id && !is_terminal(s.status) {
        StepRow {
            status: if s.status == JobStatus::Running {
                JobStatus::Failed
            } else {
                closed_step_status(success)
            },
            finished_at: Some(now),
            ..s
        }
    } else {
        s
    }
}

/// Every job of the pipeline has finished.
pub open spec fn all_jobs_finished(jobs: Seq<JobRow>) -> bool {
    forall|k: int| 0 <= k < jobs.len() ==> (#[trigger] jobs[k]).finished_at is Some
}

/// Some job of the pipeline failed or was cancelled.
pub open spec fn some_job_failed(jobs: Seq<JobRow>) -> bool {
    exists|k: int|
        0 <= k < jobs.len() && ((#[trigger] jobs[k]).status == JobStatus::Failed || jobs[k].status
            == JobStatus::Cancelled)
}

/// A running pipeline settles once every job has finished: it fails when
/// some job failed or was cancelled, and succeeds otherwise.
pub open spec fn pipeline_settles(p: PipelineRow, jobs: Seq<JobRow>) -> bool {
    p.status == PipelineStatus::Running && all_jobs_finished(jobs)
}

/// The status a settling pipeline gets.
pub open spec fn settled_status(jobs: Seq<JobRow>) -> PipelineStatus {
    if some_job_failed(jobs) {
        PipelineStatus::Failed
    } else {
        PipelineStatus::Success
    }
}

/// The pipeline row after its jobs changed.
pub open spec fn settle_pipeline(p: PipelineRow, jobs: Seq<JobRow>, now: i64) -> PipelineRow {
    if pipeline_settles(p, jobs) {
        PipelineRow { status: settled_status(jobs), finished_at: Some(now), ..p }
    } else {
        p
    }
}

/// Some job runs under `id`.
pub open spec fn has_running_job(jobs: Seq<JobRow>, id: u128) -> bool {
    exists|k: int| 0 <= k < jobs.len() && is_running_job(#[trigger] jobs[k], id)
}

/// The effect of an agent reporting job `id` finished: the new run, the
/// answer to the agent and the notifications, in order.
pub open spec fn finish_job_spec(v: RunView, id: u128, success: bool, now: i64) -> (
    RunView,
    JobFinishResponse,
    Seq<EventMessage>,
) {
    if has_running_job(v.jobs, id) {
        let jobs = v.jobs.map_values(|j: JobRow| finish_job_row(j, id, success, now));
        let steps = v.steps.map_values(|s: StepRow| close_step_row(s, id, success, now));
        let pipeline = settle_pipeline(v.pipeline, jobs, now);
        let job_event = EventMessage::UpdateJobStatus {
            pipeline: v.pipeline.id,
            job: id,
            status: finished_job_status(success),
        };
        let events = if pipeline_settles(v.pipeline, jobs) {
            seq![
                job_event,
                EventMessage::UpdatePipelineStatus {
                    pipeline: v.pipeline.id,
                    status: settled_status(jobs),
                },
            ]
        } else {
            seq![job_event]
        };
        (RunView { pipeline, jobs, steps, depends: v.depends }, JobFinishResponse::Accepted, events)
    } else {
        (v, JobFinishResponse::JobNotFound, seq![])
    }
}

fn finish_job_row_exec(j: JobRow, id: u128, success: bool, now: i64) -> (r: JobRow)
    ensures
        r == finish_job_row(j, id, success, now),
{
    if j.id == id && j.status == JobStatus::Running {
        JobRow {
            status: if success {
                JobStatus::Success
            } else {
                JobStatus::Failed
            },
            finished_at: Some(now),
            ..j
        }
    } else {
        j
    }
}

fn close_step_row_exec(s: StepRow, job_id: u128, success: bool, now: i64) -> (r: StepRow)
    ensures
        r == close_step_row(s, job_id, success, now),
{
    if s.job_id == job_id && !s.status.is_finished() {
        StepRow {
            status: if s.status == JobStatus::Running {
                JobStatus::Failed
            } else if success {
                JobStatus::Success
            } else {
                JobStatus::Skipped
            },
            finished_at: Some(now),
            ..s
        }
    } else {
        s
    }
}

impl PipelineRun {
    fn find_running_job(&self, id: u128) -> (found: bool)
        ensures
            found == has_running_job(self.jobs@, id),
    {
        let mut i: usize = 0;
        while i < self.jobs.len()
            invariant
                i <= self.jobs.len(),
                forall|k: int| 0 <= k < i ==> !is_running_job(#[trigger] self.jobs@[k], id),
            decreases self.jobs.len() - i,
        {
            if self.jobs[i].id == id && self.jobs[i].status == JobStatus::Running {
                return true;
            }
            i = i + 1;
        }
        false
    }

    fn jobs_all_finished(&self) -> (b: bool)
        ensures
            b == all_jobs_finished(self.jobs@),
    {
        let mut i: usize = 0;
        while i < self.jobs.len()
            invariant
                i <= self.jobs.len(),
                forall|k: int| 0 <= k < i ==> (#[trigger] self.jobs@[k]).finished_at is Some,
            decreases self.jobs.len() - i,
        {
            if self.jobs[i].finished_at.is_none() {
                assert(!((self.jobs@[i as int]).finished_at is Some));
                return false;
            }
            i = i + 1;
        }
        true
    }

    fn jobs_some_failed(&self) -> (b: bool)
        ensures
            b == some_job_failed(self.jobs@),
    {
        let mut i: usize = 0;
        while i < self.jobs.len()
            invariant
                i <= self.jobs.len(),
                forall|k: int|
                    0 <= k < i ==> !((#[trigger] self.jobs@[k]).status == JobStatus::Failed
                        || self.jobs@[k].status == JobStatus::Cancelled),
            decreases self.jobs.len() - i,
        {
            if self.jobs[i].status == JobStatus::Failed || self.jobs[i].status
                == JobStatus::Cancelled {
                assert(0 <= i < self.jobs@.len() && (self.jobs@[i as int].status
                    == JobStatus::Failed || self.jobs@[i as int].status == JobStatus::Cancelled));
                return true;
            }
            i = i + 1;
        }
        false
    }

    /// Records that the agent running job `job_id` finished it, with the
    /// given outcome, at time `now`.
    ///
    /// Only a running job can finish. Its open steps are closed with it, and
    /// the pipeline settles when this was its last unfinished job.
    pub fn finish_job(&mut self, job_id: u128, success: bool, now: i64) -> (res: (
        JobFinishResponse,
        Vec<EventMessage>,
    ))
        ensures
            final(self)@ == finish_job_spec(old(self)@, job_id, success, now).0,
            res.0 == finish_job_spec(old(self)@, job_id, success, now).1,
            res.1@ == finish_job_spec(old(self)@, job_id, success, now).2,
    {
        if !self.find_running_job(job_id) {
            return (JobFinishResponse::JobNotFound, Vec::new());
        }
        let ghost old_jobs = self.jobs@;
        let ghost old_steps = self.steps@;
        let mut i: usize = 0;
        while i < self.jobs.len()
            invariant
                self.jobs@.len() == old_jobs.len(),
                self.steps@ == old_steps,
                self.pipeline == old(self).pipeline,
                self.depends@ == old(self).depends@,
                i <= self.jobs.len(),
                forall|k: int|
                    0 <= k < i ==> #[trigger] self.jobs@[k] == finish_job_row(
                        old_jobs[k],
                        job_id,
                        success,
                        now,
                    ),
                forall|k: int| i <= k < self.jobs@.len() ==> #[trigger] self.jobs@[k] == old_jobs[k],
            decreases self.jobs.len() - i,
        {
            let r = finish_job_row_exec(self.jobs[i], job_id, success, now);
            self.jobs.set(i, r);
            i = i + 1;
        }
        assert(self.jobs@ =~= old_jobs.map_values(
            |j: JobRow| finish_job_row(j, job_id, success, now),
        ));
        let mut i: usize = 0;
        while i < self.steps.len()
            invariant
                self.steps@.len() == old_steps.len(),
                self.jobs@ == old_jobs.map_values(|j: JobRow| finish_job_row(j, job_id, success, now)),
                self.pipeline == old(self).pipeline,
                self.depends@ == old(self).depends@,
                i <= self.steps.len(),
                forall|k: int|
                    0 <= k < i ==> #[trigger] self.steps@[k] == close_step_row(
                        old_steps[k],
                        job_id,
                        success,
                        now,
                    ),
                forall|k: int|
                    i <= k < self.steps@.len() ==> #[trigger] self.steps@[k] == old_steps[k],
            decreases self.steps.len() - i,
        {
            let r = close_step_row_exec(self.steps[i], job_id, success, now);
            self.steps.set(i, r);
            i = i + 1;
        }
        assert(self.steps@ =~= old_steps.map_values(
            |s: StepRow| close_step_row(s, job_id, success, now),
        ));
        let status = if success {
            JobStatus::Success
        } else {
            JobStatus::Failed
        };
        let mut events: Vec<EventMessage> = Vec::new();
        events.push(
            EventMessage::UpdateJobStatus { pipeline: self.pipeline.id, job: job_id, status },
        );
        if self.pipeline.status == PipelineStatus::Running && self.jobs_all_finished() {
            let settled = if self.jobs_some_failed() {
                PipelineStatus::Failed
            } else {
                PipelineStatus::Success
            };
            self.pipeline = PipelineRow {
                status: settled,
                finished_at: Some(now),
                ..self.pipeline
            };
            events.push(
                EventMessage::UpdatePipelineStatus { pipeline: self.pipeline.id, status: settled },
            );
        }
        (JobFinishResponse::Accepted, events)
    }
}


// ---------------------------------------------------------------------
// Steps
// ---------------------------------------------------------------------

/// The step that waits to start under `id`.
pub open spec fn is_pending_step(s: StepRow, id: u128) -> bool {
    s.id == id && s.status == JobStatus::Pending
}

/// The step that is running under `id`.
pub open spec fn is_running_step(s: StepRow, id: u128) -> bool {
    s.id == id && s.status == JobStatus::Running
}

/// A step row after its agent reported it started.
pub open spec fn start_step_row(s: StepRow, id: u128, now: i64) -> StepRow {
    if is_pending_step(s, id) {
        StepRow { status: JobStatus::Running, started_at: Some(now), ..s }
    } else {
        s
    }
}

/// A step row after its agent reported it finished with `exit_code`.
pub open spec fn finish_step_row(
    s: StepRow,
    id: u128,
    success: bool,
    exit_code: i32,
    now: i64,
) -> StepRow {
    if is_running_step(s, id) {
        StepRow {
            status: finished_job_status(success),
            exit_code: Some(exit_code),
            finished_at: Some(now),
            ..s
        }
    } else {
        s
    }
}

/// The effect of an agent reporting step `id` started: only a pending step
/// starts.
pub open spec fn start_step_spec(v: RunView, id: u128, now: i64) -> (RunView, StepStartedResponse) {
    if exists|k: int| 0 <= k < v.steps.len() && is_pending_step(#[trigger] v.steps[k], id) {
        (
            RunView { steps: v.steps.map_values(|s: StepRow| start_step_row(s, id, now)), ..v },
            StepStartedResponse::Accepted,
        )
    } else {
        (v, StepStartedResponse::StepNotFound)
    }
}

/// The effect of an agent reporting step `id` finished: only a running step
/// finishes.
pub open spec fn finish_step_spec(
    v: RunView,
    id: u128,
    success: bool,
    exit_code: i32,
    now: i64,
) -> (RunView, StepFinishResponse) {
    if exists|k: int| 0 <= k < v.steps.len() && is_running_step(#[trigger] v.steps[k], id) {
        (
            RunView {
                steps: v.steps.map_values(
                    |s: StepRow| finish_step_row(s, id, success, exit_code, now),
                ),
                ..v
            },
            StepFinishResponse::Accepted,
        )
    } else {
        (v, StepFinishResponse::StepNotFound)
    }
}

// ---------------------------------------------------------------------
// Handing jobs to agents
// ---------------------------------------------------------------------

/// Every job stored under `id` has succeeded.
pub open spec fn upstream_succeeded(jobs: Seq<JobRow>, id: u128) -> bool {
    forall|u: int| 0 <= u < jobs.len() && (#[trigger] jobs[u]).id == id ==> jobs[u].status
        == JobStatus::Success
}

/// Every job that `job_id` depends on has succeeded.
pub open spec fn dependencies_met(v: RunView, job_id: u128) -> bool {
    forall|d: int|
        0 <= d < v.depends.len() && (#[trigger] v.depends[d]).downstream_id == job_id
            ==> upstream_succeeded(v.jobs, v.depends[d].upstream_id)
}

/// Job `k` of the run may be handed to an agent: it is pending and all the
/// jobs it depends on have succeeded.
pub open spec fn job_ready(v: RunView, k: int) -> bool {
    0 <= k < v.jobs.len() && v.jobs[k].status == JobStatus::Pending && dependencies_met(
        v,
        v.jobs[k].id,
    )
}

/// Job `k` of run `r` is ready.
pub open spec fn ready_at(runs: Seq<RunView>, r: int, k: int) -> bool {
    0 <= r < runs.len() && job_ready(runs[r], k)
}

/// Position `(r, k)` comes before `(r2, k2)`.
pub open spec fn position_before(r: int, k: int, r2: int, k2: int) -> bool {
    r < r2 || (r == r2 && k < k2)
}

/// Job `k` of run `r` is the one handed out next: it is ready, no ready job
/// was created before it, and among ready jobs created at the same time it
/// comes first.
pub open spec fn is_next_job(runs: Seq<RunView>, r: int, k: int) -> bool {
    &&& ready_at(runs, r, k)
    &&& forall|r2: int, k2: int|
        #![trigger ready_at(runs, r2, k2)]
        ready_at(runs, r2, k2) ==> runs[r].jobs[k].created_at <= runs[r2].jobs[k2].created_at
    &&& forall|r2: int, k2: int|
        #![trigger ready_at(runs, r2, k2)]
        ready_at(runs, r2, k2) && position_before(r2, k2, r, k) ==> runs[r].jobs[k].created_at
            < runs[r2].jobs[k2].created_at
}

/// A job row once an agent took it.
pub open spec fn start_job_row(j: JobRow, id: u128, agent_id: u128, now: i64) -> JobRow {
    if j.id == id {
        JobRow { status: JobStatus::Running, started_at: Some(now), agent_id: Some(agent_id), ..j }
    } else {
        j
    }
}

/// The first job taken starts the pipeline.
pub open spec fn pipeline_starts(p: PipelineRow) -> bool {
    p.status == PipelineStatus::Queued && p.started_at is None
}

/// The effect of handing job `k` of a run to `agent_id`.
pub open spec fn start_job_spec(v: RunView, k: int, agent_id: u128, now: i64) -> (
    RunView,
    Seq<EventMessage>,
) {
    let id = v.jobs[k].id;
    let jobs = v.jobs.map_values(|j: JobRow| start_job_row(j, id, agent_id, now));
    let job_event = EventMessage::UpdateJobStatus {
        pipeline: v.pipeline.id,
        job: id,
        status: JobStatus::Running,
    };
    if pipeline_starts(v.pipeline) {
        (
            RunView {
                pipeline: PipelineRow {
                    status: PipelineStatus::Running,
                    started_at: Some(now),
                    ..v.pipeline
                },
                jobs,
                ..v
            },
            seq![
                EventMessage::UpdatePipelineStatus {
                    pipeline: v.pipeline.id,
                    status: PipelineStatus::Running,
                },
                job_event,
            ],
        )
    } else {
        (RunView { jobs, ..v }, seq![job_event])
    }
}

/// The job an agent takes, named by its pipeline and its own id.
#[derive(Debug, Clone, Copy, PartialEq, Eq, Structural)]
pub struct AcquiredJob {
    pub pipeline_id: u128,
    pub job_id: u128,
}

/// The effect of an agent asking for work: the oldest ready job of all
/// runs is handed to it, or nothing happens when no job is ready.
pub open spec fn acquire_spec(runs: Seq<RunView>, agent_id: u128, now: i64) -> (
    Seq<RunView>,
    Option<AcquiredJob>,
    Seq<EventMessage>,
) {
    if exists|r: int, k: int| is_next_job(runs, r, k) {
        let (r, k) = choose|r: int, k: int| is_next_job(runs, r, k);
        let (v, events) = start_job_spec(runs[r], k, agent_id, now);
        (
            runs.update(r, v),
            Some(AcquiredJob { pipeline_id: runs[r].pipeline.id, job_id: runs[r].jobs[k].id }),
            events,
        )
    } else {
        (runs, None, seq![])
    }
}

/// The mathematical value of a list of runs.
pub open spec fn runs_view(runs: Seq<PipelineRun>) -> Seq<RunView> {
    runs.map_values(|r: PipelineRun| r@)
}

/// At most one job is the next one.
pub proof fn lemma_next_job_unique(runs: Seq<RunView>, r: int, k: int, r2: int, k2: int)
    requires
        is_next_job(runs, r, k),
        is_next_job(runs, r2, k2),
    ensures
        r == r2 && k == k2,
{
    assert(ready_at(runs, r2, k2));
    assert(ready_at(runs, r, k));
    if position_before(r2, k2, r, k) {
    } else if position_before(r, k, r2, k2) {
    }
}

fn start_step_row_exec(s: StepRow, id: u128, now: i64) -> (r: StepRow)
    ensures
        r == start_step_row(s, id, now),
{
    if s.id == id && s.status == JobStatus::Pending {
        StepRow { status: JobStatus::Running, started_at: Some(now), ..s }
    } else {
        s
    }
}

fn finish_step_row_exec(s: StepRow, id: u128, success: bool, exit_code: i32, now: i64) -> (r:
    StepRow)
    ensures
        r == finish_step_row(s, id, success, exit_code, now),
{
    if s.id == id && s.status == JobStatus::Running {
        StepRow {
            status: if success {
                JobStatus::Success
            } else {
                JobStatus::Failed
            },
            exit_code: Some(exit_code),
            finished_at: Some(now),
            ..s
        }
    } else {
        s
    }
}

fn start_job_row_exec(j: JobRow, id: u128, agent_id: u128, now: i64) -> (r: JobRow)
    ensures
        r == start_job_row(j, id, agent_id, now),
{
    if j.id == id {
        JobRow { status: JobStatus::Running, started_at: Some(now), agent_id: Some(agent_id), ..j }
    } else {
        j
    }
}

impl PipelineRun {
    /// Records that the agent started step `step_id` at time `now`.
    pub fn start_step(&mut self, step_id: u128, now: i64) -> (res: StepStartedResponse)
        ensures
            final(self)@ == start_step_spec(old(self)@, step_id, now).0,
            res == start_step_spec(old(self)@, step_id, now).1,
    {
        let mut found = false;
        let mut i: usize = 0;
        while i < self.steps.len()
            invariant
                i <= self.steps.len(),
                found <==> exists|k: int| 0 <= k < i && is_pending_step(#[trigger] self.steps@[k], step_id),
            decreases self.steps.len() - i,
        {
            if self.steps[i].id == step_id && self.steps[i].status == JobStatus::Pending {
                assert(is_pending_step(self.steps@[i as int], step_id));
                found = true;
            }
            i = i + 1;
        }
        if !found {
            return StepStartedResponse::StepNotFound;
        }
        let ghost old_steps = self.steps@;
        let mut i: usize = 0;
        while i < self.steps.len()
            invariant
                self.steps@.len() == old_steps.len(),
                self.jobs@ == old(self).jobs@,
                self.pipeline == old(self).pipeline,
                self.depends@ == old(self).depends@,
                i <= self.steps.len(),
                forall|k: int|
                    0 <= k < i ==> #[trigger] self.steps@[k] == start_step_row(
                        old_steps[k],
                        step_id,
                        now,
                    ),
                forall|k: int|
                    i <= k < self.steps@.len() ==> #[trigger] self.steps@[k] == old_steps[k],
            decreases self.steps.len() - i,
        {
            let r = start_step_row_exec(self.steps[i], step_id, now);
            self.steps.set(i, r);
            i = i + 1;
        }
        assert(self.steps@ =~= old_steps.map_values(|s: StepRow| start_step_row(s, step_id, now)));
        StepStartedResponse::Accepted
    }

    /// Records that the agent finished step `step_id` with `exit_code` at
    /// time `now`.
    pub fn finish_step(&mut self, step_id: u128, success: bool, exit_code: i32, now: i64) -> (res:
        StepFinishResponse)
        ensures
            final(self)@ == finish_step_spec(old(self)@, step_id, success, exit_code, now).0,
            res == finish_step_spec(old(self)@, step_id, success, exit_code, now).1,
    {
        let mut found = false;
        let mut i: usize = 0;
        while i < self.steps.len()
            invariant
                i <= self.steps.len(),
                found <==> exists|k: int| 0 <= k < i && is_running_step(#[trigger] self.steps@[k], step_id),
            decreases self.steps.len() - i,
        {
            if self.steps[i].id == step_id && self.steps[i].status == JobStatus::Running {
                assert(is_running_step(self.steps@[i as int], step_id));
                found = true;
            }
            i = i + 1;
        }
        if !found {
            return StepFinishResponse::StepNotFound;
        }
        let ghost old_steps = self.steps@;
        let mut i: usize = 0;
        while i < self.steps.len()
            invariant
                self.steps@.len() == old_steps.len(),
                self.jobs@ == old(self).jobs@,
                self.pipeline == old(self).pipeline,
                self.depends@ == old(self).depends@,
                i <= self.steps.len(),
                forall|k: int|
                    0 <= k < i ==> #[trigger] self.steps@[k] == finish_step_row(
                        old_steps[k],
                        step_id,
                        success,
                        exit_code,
                        now,
                    ),
                forall|k: int|
                    i <= k < self.steps@.len() ==> #[trigger] self.steps@[k] == old_steps[k],
            decreases self.steps.len() - i,
        {
            let r = finish_step_row_exec(self.steps[i], step_id, success, exit_code, now);
            self.steps.set(i, r);
            i = i + 1;
        }
        assert(self.steps@ =~= old_steps.map_values(
            |s: StepRow| finish_step_row(s, step_id, success, exit_code, now),
        ));
        StepFinishResponse::Accepted
    }

    fn upstream_ok(&self, id: u128) -> (b: bool)
        ensures
            b == upstream_succeeded(self.jobs@, id),
    {
        let mut u: usize = 0;
        while u < self.jobs.len()
            invariant
                u <= self.jobs.len(),
                forall|x: int|
                    0 <= x < u && (#[trigger] self.jobs@[x]).id == id ==> self.jobs@[x].status
                        == JobStatus::Success,
            decreases self.jobs.len() - u,
        {
            if self.jobs[u].id == id && self.jobs[u].status != JobStatus::Success {
                assert(self.jobs@[u as int].id == id);
                return false;
            }
            u = u + 1;
        }
        true
    }

    /// Whether job `k` may be handed to an agent.
    pub fn is_ready(&self, k: usize) -> (b: bool)
        requires
            k < self.jobs.len(),
        ensures
            b == job_ready(self@, k as int),
    {
        if self.jobs[k].status != JobStatus::Pending {
            return false;
        }
        let id = self.jobs[k].id;
        let mut d: usize = 0;
        while d < self.depends.len()
            invariant
                d <= self.depends.len(),
                k < self.jobs.len(),
                id == self.jobs@[k as int].id,
                forall|x: int|
                    0 <= x < d && (#[trigger] self.depends@[x]).downstream_id == id
                        ==> upstream_succeeded(self.jobs@, self.depends@[x].upstream_id),
            decreases self.depends.len() - d,
        {
            if self.depends[d].downstream_id == id {
                if !self.upstream_ok(self.depends[d].upstream_id) {
                    assert(self@.depends[d as int] == self.depends@[d as int]);
                    assert(!dependencies_met(self@, id));
                    return false;
                }
            }
            d = d + 1;
        }
        true
    }

    /// Hands job `k` to `agent_id` at time `now`; the first job taken also
    /// starts the pipeline.
    pub fn start_job(&mut self, k: usize, agent_id: u128, now: i64) -> (events: Vec<EventMessage>)
        requires
            k < old(self).jobs.len(),
        ensures
            final(self)@ == start_job_spec(old(self)@, k as int, agent_id, now).0,
            events@ == start_job_spec(old(self)@, k as int, agent_id, now).1,
    {
        let id = self.jobs[k].id;
        let ghost old_jobs = self.jobs@;
        let mut i: usize = 0;
        while i < self.jobs.len()
            invariant
                self.jobs@.len() == old_jobs.len(),
                self.steps@ == old(self).steps@,
                self.pipeline == old(self).pipeline,
                self.depends@ == old(self).depends@,
                i <= self.jobs.len(),
                forall|x: int|
                    0 <= x < i ==> #[trigger] self.jobs@[x] == start_job_row(
                        old_jobs[x],
                        id,
                        agent_id,
                        now,
                    ),
                forall|x: int| i <= x < self.jobs@.len() ==> #[trigger] self.jobs@[x] == old_jobs[x],
            decreases self.jobs.len() - i,
        {
            let r = start_job_row_exec(self.jobs[i], id, agent_id, now);
            self.jobs.set(i, r);
            i = i + 1;
        }
        assert(self.jobs@ =~= old_jobs.map_values(|j: JobRow| start_job_row(j, id, agent_id, now)));
        let mut events: Vec<EventMessage> = Vec::new();
        if self.pipeline.status == PipelineStatus::Queued && self.pipeline.started_at.is_none() {
            self.pipeline = PipelineRow {
                status: PipelineStatus::Running,
                started_at: Some(now),
                ..self.pipeline
            };
            events.push(
                EventMessage::UpdatePipelineStatus {
                    pipeline: self.pipeline.id,
                    status: PipelineStatus::Running,
                },
            );
        }
        events.push(
            EventMessage::UpdateJobStatus {
                pipeline: self.pipeline.id,
                job: id,
                status: JobStatus::Running,
            },
        );
        events
    }
}

/// Finds the job handed out next among all runs, if any.
pub fn select_next_job(runs: &Vec<PipelineRun>) -> (res: Option<(usize, usize)>)
    ensures
        match res {
            Some((r, k)) => is_next_job(runs_view(runs@), r as int, k as int),
            None => !exists|r: int, k: int| #[trigger] ready_at(runs_view(runs@), r, k),
        },
{
    let ghost rv = runs_view(runs@);
    let mut best: Option<(usize, usize)> = None;
    let mut r: usize = 0;
    while r < runs.len()
        invariant
            rv == runs_view(runs@),
            r <= runs.len(),
            match best {
                Some((br, bk)) => {
                    &&& br < r
                    &&& ready_at(rv, br as int, bk as int)
                    &&& forall|r2: int, k2: int|
                        #![trigger ready_at(rv, r2, k2)]
                        ready_at(rv, r2, k2) && r2 < r ==> rv[br as int].jobs[bk as int].created_at
                            <= rv[r2].jobs[k2].created_at
                    &&& forall|r2: int, k2: int|
                        #![trigger ready_at(rv, r2, k2)]
                        ready_at(rv, r2, k2) && position_before(r2, k2, br as int, bk as int)
                            ==> rv[br as int].jobs[bk as int].created_at
                            < rv[r2].jobs[k2].created_at
                },
                None => forall|r2: int, k2: int|
                    #![trigger ready_at(rv, r2, k2)]
                    r2 < r ==> !ready_at(rv, r2, k2),
            },
        decreases runs.len() - r,
    {
        let run = &runs[r];
        assert(rv[r as int] == run@);
        let mut k: usize = 0;
        while k < run.jobs.len()
            invariant
                rv == runs_view(runs@),
                r < runs.len(),
                run == &runs@[r as int],
                rv[r as int] == run@,
                k <= run.jobs.len(),
                match best {
                    Some((br, bk)) => {
                        &&& position_before(br as int, bk as int, r as int, k as int)
                        &&& ready_at(rv, br as int, bk as int)
                        &&& forall|r2: int, k2: int|
                            #![trigger ready_at(rv, r2, k2)]
                            ready_at(rv, r2, k2) && position_before(r2, k2, r as int, k as int)
                                ==> rv[br as int].jobs[bk as int].created_at
                                <= rv[r2].jobs[k2].created_at
                        &&& forall|r2: int, k2: int|
                            #![trigger ready_at(rv, r2, k2)]
                            ready_at(rv, r2, k2) && position_before(r2, k2, br as int, bk as int)
                                ==> rv[br as int].jobs[bk as int].created_at
                                < rv[r2].jobs[k2].created_at
                    },
                    None => forall|r2: int, k2: int|
                        #![trigger ready_at(rv, r2, k2)]
                        position_before(r2, k2, r as int, k as int) ==> !ready_at(rv, r2, k2),
                },
            decreases run.jobs.len() - k,
        {
            if run.is_ready(k) {
                assert(ready_at(rv, r as int, k as int));
                match best {
                    Some((br, bk)) => {
                        if run.jobs[k].created_at < runs[br].jobs[bk].created_at {
                            best = Some((r, k));
                        }
                    },
                    None => {
                        best = Some((r, k));
                    },
                }
            }
            k = k + 1;
        }
        r = r + 1;
    }
    best
}

/// The agent-facing operations on jobs.
pub struct AgentJobsApi;

impl AgentJobsApi {
    /// Hands the oldest ready job of all runs to `agent_id` at time `now`,
    /// and answers which job it is; answers nothing when no job is ready.
    pub fn acquire(runs: &mut Vec<PipelineRun>, agent_id: u128, now: i64) -> (res: (
        Option<AcquiredJob>,
        Vec<EventMessage>,
    ))
        ensures
            runs_view(final(runs)@) == acquire_spec(runs_view(old(runs)@), agent_id, now).0,
            res.0 == acquire_spec(runs_view(old(runs)@), agent_id, now).1,
            res.1@ == acquire_spec(runs_view(old(runs)@), agent_id, now).2,
    {
        let ghost rv = runs_view(runs@);
        match select_next_job(runs) {
            None => {
                assert(!exists|r: int, k: int| is_next_job(rv, r, k));
                (None, Vec::new())
            },
            Some((r, k)) => {
                proof {
                    let (r2, k2) = choose|r2: int, k2: int| is_next_job(rv, r2, k2);
                    lemma_next_job_unique(rv, r as int, k as int, r2, k2);
                }
                let mut run = runs.remove(r);
                let acquired = AcquiredJob { pipeline_id: run.pipeline.id, job_id: run.jobs[k].id };
                let events = run.start_job(k, agent_id, now);
                runs.insert(r, run);
                assert(runs_view(runs@) =~= rv.update(
                    r as int,
                    start_job_spec(rv[r as int], k as int, agent_id, now).0,
                ));
                (Some(acquired), events)
            },
        }
    }

    /// Records that the agent finished job `job_id` in `run`; see
    /// [`PipelineRun::finish_job`].
    pub fn finish(run: &mut PipelineRun, job_id: u128, success: bool, now: i64) -> (res: (
        JobFinishResponse,
        Vec<EventMessage>,
    ))
        ensures
            final(run)@ == finish_job_spec(old(run)@, job_id, success, now).0,
            res.0 == finish_job_spec(old(run)@, job_id, success, now).1,
            res.1@ == finish_job_spec(old(run)@, job_id, success, now).2,
    {
        run.finish_job(job_id, success, now)
    }
}

/// The agent-facing operations on steps.
pub struct AgentJobStepsApi;

impl AgentJobStepsApi {
    /// Records that a step started; see [`PipelineRun::start_step`].
    pub fn started(run: &mut PipelineRun, step_id: u128, now: i64) -> (res: StepStartedResponse)
        ensures
            final(run)@ == start_step_spec(old(run)@, step_id, now).0,
            res == start_step_spec(old(run)@, step_id, now).1,
    {
        run.start_step(step_id, now)
    }

    /// Records that a step finished; see [`PipelineRun::finish_step`].
    pub fn finish(run: &mut PipelineRun, step_id: u128, success: bool, exit_code: i32, now: i64) -> (res:
        StepFinishResponse)
        ensures
            final(run)@ == finish_step_spec(old(run)@, step_id, success, exit_code, now).0,
            res == finish_step_spec(old(run)@, step_id, success, exit_code, now).1,
    {
        run.finish_step(step_id, success, exit_code, now)
    }
}


// ---------------------------------------------------------------------
// Laws of the life cycle
// ---------------------------------------------------------------------

/// A job row is consistent: a finished job has a finish time, and a
/// running job a start time and an agent.
pub open spec fn job_row_consistent(j: JobRow) -> bool {
    &&& is_terminal(j.status) ==> j.finished_at is Some
    &&& j.status == JobStatus::Running ==> j.started_at is Some && j.agent_id is Some
}

/// A step row is consistent: a finished step has a finish time, and a
/// running step a start time.
pub open spec fn step_row_consistent(s: StepRow) -> bool {
    &&& is_terminal(s.status) ==> s.finished_at is Some
    &&& s.status == JobStatus::Running ==> s.started_at is Some
}

/// A pipeline row is consistent: a finished pipeline has a finish time,
/// and a running one a start time.
pub open spec fn pipeline_row_consistent(p: PipelineRow) -> bool {
    &&& crate::status::pipeline_is_terminal(p.status) ==> p.finished_at is Some
    &&& p.status == PipelineStatus::Running ==> p.started_at is Some
}

/// Every row of the run is consistent.
pub open spec fn run_consistent(v: RunView) -> bool {
    &&& pipeline_row_consistent(v.pipeline)
    &&& forall|k: int| 0 <= k < v.jobs.len() ==> job_row_consistent(#[trigger] v.jobs[k])
    &&& forall|k: int| 0 <= k < v.steps.len() ==> step_row_consistent(#[trigger] v.steps[k])
}

/// Every report of an agent, and handing a job to one, keeps the rows of a
/// run consistent: what is finished has a finish time, and what runs has a
/// start time (and, for a job, an agent).
pub proof fn lemma_operations_keep_runs_consistent(
    v: RunView,
    job_id: u128,
    step_id: u128,
    success: bool,
    exit_code: i32,
    now: i64,
    k: int,
    agent_id: u128,
)
    requires
        run_consistent(v),
        0 <= k < v.jobs.len(),
    ensures
        run_consistent(finish_job_spec(v, job_id, success, now).0),
        run_consistent(start_step_spec(v, step_id, now).0),
        run_consistent(finish_step_spec(v, step_id, success, exit_code, now).0),
        run_consistent(start_job_spec(v, k, agent_id, now).0),
{
    let f = finish_job_spec(v, job_id, success, now).0;
    if has_running_job(v.jobs, job_id) {
        assert forall|i: int| 0 <= i < f.jobs.len() implies job_row_consistent(#[trigger] f.jobs[i]) by {
            assert(f.jobs[i] == finish_job_row(v.jobs[i], job_id, success, now));
            assert(job_row_consistent(v.jobs[i]));
        }
        assert forall|i: int| 0 <= i < f.steps.len() implies step_row_consistent(#[trigger] f.steps[i]) by {
            assert(f.steps[i] == close_step_row(v.steps[i], job_id, success, now));
            assert(step_row_consistent(v.steps[i]));
        }
    }
    let a = start_step_spec(v, step_id, now).0;
    assert forall|i: int| 0 <= i < a.steps.len() implies step_row_consistent(#[trigger] a.steps[i]) by {
        assert(step_row_consistent(v.steps[i]));
        if exists|x: int| 0 <= x < v.steps.len() && is_pending_step(#[trigger] v.steps[x], step_id) {
            assert(a.steps[i] == start_step_row(v.steps[i], step_id, now));
        }
    }
    let b = finish_step_spec(v, step_id, success, exit_code, now).0;
    assert forall|i: int| 0 <= i < b.steps.len() implies step_row_consistent(#[trigger] b.steps[i]) by {
        assert(step_row_consistent(v.steps[i]));
        if exists|x: int| 0 <= x < v.steps.len() && is_running_step(#[trigger] v.steps[x], step_id) {
            assert(b.steps[i] == finish_step_row(v.steps[i], step_id, success, exit_code, now));
        }
    }
    let c = start_job_spec(v, k, agent_id, now).0;
    assert forall|i: int| 0 <= i < c.jobs.len() implies job_row_consistent(#[trigger] c.jobs[i]) by {
        assert(c.jobs[i] == start_job_row(v.jobs[i], v.jobs[k].id, agent_id, now));
        assert(job_row_consistent(v.jobs[i]));
    }
    assert forall|i: int| 0 <= i < c.steps.len() implies step_row_consistent(#[trigger] c.steps[i]) by {
        assert(step_row_consistent(v.steps[i]));
    }
}

/// Handing out a job keeps every run consistent.
pub proof fn lemma_acquire_keeps_runs_consistent(runs: Seq<RunView>, agent_id: u128, now: i64)
    requires
        forall|r: int| 0 <= r < runs.len() ==> run_consistent(#[trigger] runs[r]),
    ensures
        forall|r: int|
            0 <= r < acquire_spec(runs, agent_id, now).0.len() ==> run_consistent(
                #[trigger] acquire_spec(runs, agent_id, now).0[r],
            ),
{
    if exists|r: int, k: int| is_next_job(runs, r, k) {
        let (r, k) = choose|r: int, k: int| is_next_job(runs, r, k);
        assert(run_consistent(runs[r]));
        lemma_operations_keep_runs_consistent(runs[r], 0, 0, true, 0, now, k, agent_id);
    }
}

/// A job can be reported finished once: reporting it again is answered with
/// "job not found" and changes nothing.
pub proof fn lemma_finish_job_once(v: RunView, id: u128, success: bool, now: i64, again: bool, later: i64)
    requires
        finish_job_spec(v, id, success, now).1 == JobFinishResponse::Accepted,
    ensures
        ({
            let v1 = finish_job_spec(v, id, success, now).0;
            finish_job_spec(v1, id, again, later) == (v1, JobFinishResponse::JobNotFound, Seq::<
                EventMessage,
            >::empty())
        }),
{
    let v1 = finish_job_spec(v, id, success, now).0;
    assert forall|k: int| 0 <= k < v1.jobs.len() implies !is_running_job(#[trigger] v1.jobs[k], id) by {
        assert(v1.jobs[k] == finish_job_row(v.jobs[k], id, success, now));
    }
    assert(!has_running_job(v1.jobs, id));
    assert(seq![] =~= Seq::<EventMessage>::empty());
}

/// Once a job is reported finished, none of its steps is left open.
pub proof fn lemma_finish_job_closes_steps(v: RunView, id: u128, success: bool, now: i64)
    requires
        finish_job_spec(v, id, success, now).1 == JobFinishResponse::Accepted,
    ensures
        ({
            let v1 = finish_job_spec(v, id, success, now).0;
            forall|k: int|
                0 <= k < v1.steps.len() && (#[trigger] v1.steps[k]).job_id == id ==> is_terminal(
                    v1.steps[k].status,
                )
        }),
{
    let v1 = finish_job_spec(v, id, success, now).0;
    assert forall|k: int|
        0 <= k < v1.steps.len() && (#[trigger] v1.steps[k]).job_id == id implies is_terminal(
        v1.steps[k].status,
    ) by {
        assert(v1.steps[k] == close_step_row(v.steps[k], id, success, now));
    }
}

/// Reporting a job finished touches no job, step or pipeline that had
/// already finished.
pub proof fn lemma_finish_job_keeps_finished(v: RunView, id: u128, success: bool, now: i64)
    ensures
        ({
            let v1 = finish_job_spec(v, id, success, now).0;
            &&& v1.jobs.len() == v.jobs.len()
            &&& v1.steps.len() == v.steps.len()
            &&& v1.depends == v.depends
            &&& forall|k: int|
                0 <= k < v.jobs.len() && is_terminal(#[trigger] v.jobs[k].status) ==> v1.jobs[k]
                    == v.jobs[k]
            &&& forall|k: int|
                0 <= k < v.steps.len() && is_terminal(#[trigger] v.steps[k].status) ==> v1.steps[k]
                    == v.steps[k]
            &&& crate::status::pipeline_is_terminal(v.pipeline.status) ==> v1.pipeline == v.pipeline
        }),
{
}

/// A running pipeline ends exactly when its last job is reported finished:
/// it fails when some job failed or was cancelled, and succeeds otherwise.
pub proof fn lemma_pipeline_settles(v: RunView, id: u128, success: bool, now: i64)
    requires
        v.pipeline.status == PipelineStatus::Running,
        finish_job_spec(v, id, success, now).1 == JobFinishResponse::Accepted,
    ensures
        ({
            let v1 = finish_job_spec(v, id, success, now).0;
            &&& crate::status::pipeline_is_terminal(v1.pipeline.status) <==> all_jobs_finished(
                v1.jobs,
            )
            &&& v1.pipeline.status == PipelineStatus::Failed <==> (all_jobs_finished(v1.jobs)
                && some_job_failed(v1.jobs))
            &&& v1.pipeline.status == PipelineStatus::Success <==> (all_jobs_finished(v1.jobs)
                && !some_job_failed(v1.jobs))
            &&& all_jobs_finished(v1.jobs) ==> v1.pipeline.finished_at == Some(now)
        }),
{
}

/// A job that reports failure makes its pipeline fail once it settles.
pub proof fn lemma_failed_job_fails_pipeline(v: RunView, id: u128, now: i64)
    requires
        v.pipeline.status == PipelineStatus::Running,
        finish_job_spec(v, id, false, now).1 == JobFinishResponse::Accepted,
        all_jobs_finished(finish_job_spec(v, id, false, now).0.jobs),
    ensures
        finish_job_spec(v, id, false, now).0.pipeline.status == PipelineStatus::Failed,
{
    let v1 = finish_job_spec(v, id, false, now).0;
    let k = choose|k: int| 0 <= k < v.jobs.len() && is_running_job(#[trigger] v.jobs[k], id);
    assert(v1.jobs[k] == finish_job_row(v.jobs[k], id, false, now));
    assert(v1.jobs[k].status == JobStatus::Failed);
}

/// A step starts once: reporting it started again is answered with "step
/// not found" and changes nothing.
pub proof fn lemma_start_step_once(v: RunView, id: u128, now: i64, later: i64)
    requires
        start_step_spec(v, id, now).1 == StepStartedResponse::Accepted,
    ensures
        ({
            let v1 = start_step_spec(v, id, now).0;
            start_step_spec(v1, id, later) == (v1, StepStartedResponse::StepNotFound)
        }),
{
    let v1 = start_step_spec(v, id, now).0;
    assert forall|k: int| 0 <= k < v1.steps.len() implies !is_pending_step(#[trigger] v1.steps[k], id) by {
        assert(v1.steps[k] == start_step_row(v.steps[k], id, now));
    }
}

/// A step that was started and then reported finished ends with the
/// reported outcome and exit code; a second report changes nothing.
pub proof fn lemma_step_start_then_finish(
    v: RunView,
    id: u128,
    t0: i64,
    success: bool,
    exit_code: i32,
    t1: i64,
)
    requires
        start_step_spec(v, id, t0).1 == StepStartedResponse::Accepted,
    ensures
        ({
            let v1 = start_step_spec(v, id, t0).0;
            let (v2, r2) = finish_step_spec(v1, id, success, exit_code, t1);
            &&& r2 == StepFinishResponse::Accepted
            &&& forall|k: int|
                0 <= k < v.steps.len() && is_pending_step(#[trigger] v.steps[k], id) ==> v2.steps[k]
                    == (StepRow {
                    status: finished_job_status(success),
                    exit_code: Some(exit_code),
                    started_at: Some(t0),
                    finished_at: Some(t1),
                    ..v.steps[k]
                })
            &&& finish_step_spec(v2, id, success, exit_code, t1).1
                == StepFinishResponse::StepNotFound
        }),
{
    let v1 = start_step_spec(v, id, t0).0;
    let k0 = choose|k: int| 0 <= k < v.steps.len() && is_pending_step(#[trigger] v.steps[k], id);
    assert(v1.steps[k0] == start_step_row(v.steps[k0], id, t0));
    assert(is_running_step(v1.steps[k0], id));
    let v2 = finish_step_spec(v1, id, success, exit_code, t1).0;
    assert forall|k: int| 0 <= k < v2.steps.len() implies !is_running_step(#[trigger] v2.steps[k], id) by {
        assert(v2.steps[k] == finish_step_row(v1.steps[k], id, success, exit_code, t1));
    }
    assert forall|k: int|
        0 <= k < v.steps.len() && is_pending_step(#[trigger] v.steps[k], id) implies v2.steps[k]
        == (StepRow {
        status: finished_job_status(success),
        exit_code: Some(exit_code),
        started_at: Some(t0),
        finished_at: Some(t1),
        ..v.steps[k]
    }) by {
        assert(v1.steps[k] == start_step_row(v.steps[k], id, t0));
        assert(v2.steps[k] == finish_step_row(v1.steps[k], id, success, exit_code, t1));
    }
}

/// Step reports touch no step that had already finished, and no job or
/// pipeline at all.
pub proof fn lemma_step_reports_keep_finished(
    v: RunView,
    id: u128,
    success: bool,
    exit_code: i32,
    now: i64,
)
    ensures
        ({
            let a = start_step_spec(v, id, now).0;
            let b = finish_step_spec(v, id, success, exit_code, now).0;
            &&& a.jobs == v.jobs && a.pipeline == v.pipeline && a.steps.len() == v.steps.len()
            &&& b.jobs == v.jobs && b.pipeline == v.pipeline && b.steps.len() == v.steps.len()
            &&& forall|k: int|
                0 <= k < v.steps.len() && is_terminal(#[trigger] v.steps[k].status) ==> a.steps[k]
                    == v.steps[k] && b.steps[k] == v.steps[k]
        }),
{
}

/// Job ids within a run are distinct.
pub open spec fn job_ids_distinct(jobs: Seq<JobRow>) -> bool {
    forall|a: int, b: int|
        0 <= a < jobs.len() && 0 <= b < jobs.len() && a != b ==> (#[trigger] jobs[a]).id
            != (#[trigger] jobs[b]).id
}

/// An agent only ever gets a job that is pending and whose dependencies all
/// succeeded, and no older job was ready; when it gets nothing, no job of
/// any run was ready.
pub proof fn lemma_acquire_hands_out_ready_jobs(runs: Seq<RunView>, agent_id: u128, now: i64)
    ensures
        ({
            let (runs1, got, events) = acquire_spec(runs, agent_id, now);
            &&& got is None <==> !exists|r: int, k: int| #[trigger] ready_at(runs, r, k)
            &&& got matches Some(a) ==> exists|r: int, k: int|
                #![trigger ready_at(runs, r, k)]
                ready_at(runs, r, k) && runs[r].pipeline.id == a.pipeline_id
                    && runs[r].jobs[k].id == a.job_id && dependencies_met(runs[r], a.job_id)
                    && (forall|r2: int, k2: int|
                    #![trigger ready_at(runs, r2, k2)]
                    ready_at(runs, r2, k2) ==> runs[r].jobs[k].created_at
                        <= runs[r2].jobs[k2].created_at)
        }),
{
    if exists|r: int, k: int| #[trigger] ready_at(runs, r, k) {
        lemma_some_ready_has_next(runs);
    }
}

/// A job is ready exactly when it is pending and, for every dependency row
/// naming it as the downstream job, every job carrying that row's upstream
/// id has succeeded: one parent still running, failed or pending is enough
/// to keep it waiting, whichever row names that parent.
pub proof fn lemma_ready_iff_all_parents_succeeded(v: RunView, k: int)
    requires
        0 <= k < v.jobs.len(),
    ensures
        job_ready(v, k) <==> (v.jobs[k].status == JobStatus::Pending && forall|d: int, u: int|
            #![trigger v.depends[d], v.jobs[u]]
            0 <= d < v.depends.len() && 0 <= u < v.jobs.len() && v.depends[d].downstream_id
                == v.jobs[k].id && v.jobs[u].id == v.depends[d].upstream_id ==> v.jobs[u].status
                == JobStatus::Success),
{
    if job_ready(v, k) {
        assert forall|d: int, u: int|
            0 <= d < v.depends.len() && 0 <= u < v.jobs.len() && v.depends[d].downstream_id
                == v.jobs[k].id && v.jobs[u].id == v.depends[d].upstream_id implies v.jobs[u].status
            == JobStatus::Success by {
            assert(upstream_succeeded(v.jobs, v.depends[d].upstream_id));
        }
    }
    if v.jobs[k].status == JobStatus::Pending && forall|d: int, u: int|
        #![trigger v.depends[d], v.jobs[u]]
        0 <= d < v.depends.len() && 0 <= u < v.jobs.len() && v.depends[d].downstream_id
            == v.jobs[k].id && v.jobs[u].id == v.depends[d].upstream_id ==> v.jobs[u].status
            == JobStatus::Success {
        assert forall|d: int|
            0 <= d < v.depends.len() && (#[trigger] v.depends[d]).downstream_id == v.jobs[k].id
                implies upstream_succeeded(v.jobs, v.depends[d].upstream_id) by {
            assert forall|u: int|
                0 <= u < v.jobs.len() && (#[trigger] v.jobs[u]).id == v.depends[d].upstream_id
                    implies v.jobs[u].status == JobStatus::Success by {
                assert(v.depends[d] == v.depends[d]);
            }
        }
    }
}

/// The job an agent is handed was pending and every job it depends on had
/// succeeded: for each dependency row naming it as downstream, every job of
/// its run carrying the row's upstream id is in status success.
pub proof fn lemma_acquired_job_parents_succeeded(runs: Seq<RunView>, agent_id: u128, now: i64)
    ensures
        acquire_spec(runs, agent_id, now).1 matches Some(a) ==> exists|r: int, k: int|
            #![trigger runs[r].jobs[k]]
            0 <= r < runs.len() && 0 <= k < runs[r].jobs.len() && runs[r].pipeline.id
                == a.pipeline_id && runs[r].jobs[k].id == a.job_id && runs[r].jobs[k].status
                == JobStatus::Pending && (forall|d: int, u: int|
                #![trigger runs[r].depends[d], runs[r].jobs[u]]
                0 <= d < runs[r].depends.len() && 0 <= u < runs[r].jobs.len()
                    && runs[r].depends[d].downstream_id == a.job_id && runs[r].jobs[u].id
                    == runs[r].depends[d].upstream_id ==> runs[r].jobs[u].status
                    == JobStatus::Success),
{
    lemma_acquire_hands_out_ready_jobs(runs, agent_id, now);
    if let Some(a) = acquire_spec(runs, agent_id, now).1 {
        let (r, k) = choose|r: int, k: int|
            #![trigger ready_at(runs, r, k)]
            ready_at(runs, r, k) && runs[r].pipeline.id == a.pipeline_id && runs[r].jobs[k].id
                == a.job_id && dependencies_met(runs[r], a.job_id) && (forall|r2: int, k2: int|
                #![trigger ready_at(runs, r2, k2)]
                ready_at(runs, r2, k2) ==> runs[r].jobs[k].created_at
                    <= runs[r2].jobs[k2].created_at);
        lemma_ready_iff_all_parents_succeeded(runs[r], k);
        assert(runs[r].jobs[k] == runs[r].jobs[k]);
    }
}

/// The job an agent is handed is running in its run afterwards, so the
/// agent's report that it finished is accepted.
pub proof fn lemma_acquired_job_can_finish(
    runs: Seq<RunView>,
    agent_id: u128,
    now: i64,
    success: bool,
    later: i64,
)
    ensures
        ({
            let (runs1, got, events) = acquire_spec(runs, agent_id, now);
            got matches Some(a) ==> exists|r: int|
                0 <= r < runs1.len() && (#[trigger] runs1[r]).pipeline.id == a.pipeline_id
                    && has_running_job(runs1[r].jobs, a.job_id) && finish_job_spec(
                    runs1[r],
                    a.job_id,
                    success,
                    later,
                ).1 == JobFinishResponse::Accepted
        }),
{
    if exists|r: int, k: int| is_next_job(runs, r, k) {
        let (r, k) = choose|r: int, k: int| is_next_job(runs, r, k);
        let v = runs[r];
        let id = v.jobs[k].id;
        let (v1, events) = start_job_spec(v, k, agent_id, now);
        let runs1 = runs.update(r, v1);
        assert(v1.jobs[k] == start_job_row(v.jobs[k], id, agent_id, now));
        assert(is_running_job(v1.jobs[k], id));
        assert(has_running_job(v1.jobs, id));
        assert(runs1[r] == v1);
        assert(runs1[r].pipeline.id == v.pipeline.id);
        assert(finish_job_spec(runs1[r], id, success, later).1 == JobFinishResponse::Accepted);
        assert(acquire_spec(runs, agent_id, now).0 == runs1);
        assert(acquire_spec(runs, agent_id, now).1 == Some(
            AcquiredJob { pipeline_id: v.pipeline.id, job_id: id },
        ));
    }
}

/// No two jobs of any runs share an id.
pub open spec fn all_job_ids_distinct(runs: Seq<RunView>) -> bool {
    forall|r1: int, k1: int, r2: int, k2: int|
        0 <= r1 < runs.len() && 0 <= r2 < runs.len() && 0 <= k1 < runs[r1].jobs.len() && 0 <= k2
            < runs[r2].jobs.len() && (r1 != r2 || k1 != k2) ==> (#[trigger] runs[r1].jobs[k1]).id
            != (#[trigger] runs[r2].jobs[k2]).id
}

/// Handing out a job changes no job id and no number of jobs.
proof fn lemma_acquire_keeps_job_ids(runs: Seq<RunView>, agent_id: u128, now: i64)
    ensures
        ({
            let runs1 = acquire_spec(runs, agent_id, now).0;
            &&& runs1.len() == runs.len()
            &&& forall|r: int|
                0 <= r < runs.len() ==> (#[trigger] runs1[r]).jobs.len() == runs[r].jobs.len()
            &&& forall|r: int, k: int|
                0 <= r < runs.len() && 0 <= k < runs[r].jobs.len() ==> (
                #[trigger] runs1[r].jobs[k]).id == runs[r].jobs[k].id
        }),
{
    if exists|r: int, k: int| is_next_job(runs, r, k) {
        let (r0, k0) = choose|r: int, k: int| is_next_job(runs, r, k);
        let runs1 = acquire_spec(runs, agent_id, now).0;
        assert forall|r: int, k: int|
            0 <= r < runs.len() && 0 <= k < runs[r].jobs.len() implies (
            #[trigger] runs1[r].jobs[k]).id == runs[r].jobs[k].id by {
            if r == r0 {
                assert(runs1[r].jobs[k] == start_job_row(runs[r].jobs[k], runs[r0].jobs[k0].id, agent_id, now));
            }
        }
    }
}

/// Two agents asking one after the other never get the same job: the job
/// the first gets is running and so not ready for the second, and job ids
/// are distinct.
pub proof fn lemma_no_job_handed_out_twice(
    runs: Seq<RunView>,
    first_agent: u128,
    second_agent: u128,
    now: i64,
    later: i64,
)
    requires
        all_job_ids_distinct(runs),
    ensures
        ({
            let (runs1, got1, ev1) = acquire_spec(runs, first_agent, now);
            let (runs2, got2, ev2) = acquire_spec(runs1, second_agent, later);
            got1 matches Some(a) ==> (got2 matches Some(b) ==> a.job_id != b.job_id)
        }),
{
    let runs1 = acquire_spec(runs, first_agent, now).0;
    lemma_acquire_keeps_job_ids(runs, first_agent, now);
    if exists|r: int, k: int| is_next_job(runs, r, k) {
        let (r, k) = choose|r: int, k: int| is_next_job(runs, r, k);
        let id = runs[r].jobs[k].id;
        assert(runs1[r].jobs[k] == start_job_row(runs[r].jobs[k], id, first_agent, now));
        assert(runs1[r].jobs[k].status == JobStatus::Running);
        if exists|r2: int, k2: int| is_next_job(runs1, r2, k2) {
            let (r2, k2) = choose|r2: int, k2: int| is_next_job(runs1, r2, k2);
            assert(ready_at(runs1, r2, k2));
            assert(runs1[r2].jobs[k2].status == JobStatus::Pending);
            assert(r2 != r || k2 != k);
            assert(runs1[r2].jobs[k2].id == runs[r2].jobs[k2].id);
            assert(runs[r2].jobs[k2].id != runs[r].jobs[k].id);
        }
    }
}

/// Every job bearing `id` is running.
pub open spec fn running_if_handed(runs: Seq<RunView>, id: u128) -> bool {
    forall|r: int, k: int|
        0 <= r < runs.len() && 0 <= k < runs[r].jobs.len() && (#[trigger] runs[r].jobs[k]).id
            == id ==> runs[r].jobs[k].status == JobStatus::Running
}

/// One acquisition keeps job ids distinct, keeps running jobs running, and
/// hands out a job that was not running and is running after.
proof fn lemma_acquire_step(runs: Seq<RunView>, agent_id: u128, now: i64)
    requires
        all_job_ids_distinct(runs),
    ensures
        ({
            let (runs1, got, ev) = acquire_spec(runs, agent_id, now);
            &&& all_job_ids_distinct(runs1)
            &&& forall|id: u128| #[trigger]
                running_if_handed(runs, id) ==> running_if_handed(runs1, id)
            &&& got matches Some(a) ==> !running_if_handed(runs, a.job_id) && running_if_handed(
                runs1,
                a.job_id,
            )
        }),
{
    lemma_acquire_keeps_job_ids(runs, agent_id, now);
    let runs1 = acquire_spec(runs, agent_id, now).0;
    if exists|r: int, k: int| is_next_job(runs, r, k) {
        let (r0, k0) = choose|r: int, k: int| is_next_job(runs, r, k);
        let x = runs[r0].jobs[k0].id;
        assert(ready_at(runs, r0, k0));
        assert(runs[r0].jobs[k0].status == JobStatus::Pending);
        assert forall|r: int, k: int|
            0 <= r < runs.len() && 0 <= k < runs[r].jobs.len() && !(r == r0 && k == k0) implies #[trigger] runs1[r].jobs[k]
            == runs[r].jobs[k] by {
            if r == r0 {
                assert(runs[r].jobs[k].id != x);
                assert(runs1[r].jobs[k] == start_job_row(runs[r].jobs[k], x, agent_id, now));
            }
        }
        assert(runs1[r0].jobs[k0] == start_job_row(runs[r0].jobs[k0], x, agent_id, now));
        assert(all_job_ids_distinct(runs1)) by {
            assert forall|r1: int, k1: int, r2: int, k2: int|
                0 <= r1 < runs1.len() && 0 <= r2 < runs1.len() && 0 <= k1 < runs1[r1].jobs.len()
                    && 0 <= k2 < runs1[r2].jobs.len() && (r1 != r2 || k1 != k2) implies (
            #[trigger] runs1[r1].jobs[k1]).id != (#[trigger] runs1[r2].jobs[k2]).id by {
                assert(runs1[r1].jobs[k1].id == runs[r1].jobs[k1].id);
                assert(runs1[r2].jobs[k2].id == runs[r2].jobs[k2].id);
            }
        }
        assert forall|id: u128| #[trigger] running_if_handed(runs, id) implies running_if_handed(
            runs1,
            id,
        ) by {
            assert forall|r: int, k: int|
                0 <= r < runs1.len() && 0 <= k < runs1[r].jobs.len() && (
                #[trigger] runs1[r].jobs[k]).id == id implies runs1[r].jobs[k].status
                == JobStatus::Running by {
                assert(runs1[r].jobs[k].id == runs[r].jobs[k].id);
                if r == r0 && k == k0 {
                    assert(runs[r0].jobs[k0].status == JobStatus::Running);
                } else {
                    assert(runs1[r].jobs[k] == runs[r].jobs[k]);
                }
            }
        }
        assert(!running_if_handed(runs, x)) by {
            assert(runs[r0].jobs[k0].id == x);
        }
        assert forall|r: int, k: int|
            0 <= r < runs1.len() && 0 <= k < runs1[r].jobs.len() && (
            #[trigger] runs1[r].jobs[k]).id == x implies runs1[r].jobs[k].status
            == JobStatus::Running by {
            assert(runs1[r].jobs[k].id == runs[r].jobs[k].id);
            if !(r == r0 && k == k0) {
                assert(runs[r].jobs[k].id != runs[r0].jobs[k0].id);
            }
        }
    }
}

/// The state after a series of acquisitions, one after the other, with
/// what each agent asked at what time, and what each one handed out.
pub open spec fn acquire_series(runs: Seq<RunView>, calls: Seq<(u128, i64)>) -> (
    Seq<RunView>,
    Seq<Option<AcquiredJob>>,
)
    decreases calls.len(),
{
    if calls.len() == 0 {
        (runs, seq![])
    } else {
        let prev = acquire_series(runs, calls.drop_last());
        let step = acquire_spec(prev.0, calls.last().0, calls.last().1);
        (step.0, prev.1.push(step.1))
    }
}

proof fn lemma_acquire_series_inv(runs: Seq<RunView>, calls: Seq<(u128, i64)>)
    requires
        all_job_ids_distinct(runs),
    ensures
        ({
            let (s, got) = acquire_series(runs, calls);
            &&& got.len() == calls.len()
            &&& all_job_ids_distinct(s)
            &&& forall|i: int|
                0 <= i < got.len() && (#[trigger] got[i]) is Some ==> running_if_handed(
                    s,
                    got[i].unwrap().job_id,
                )
            &&& forall|i: int, j: int|
                0 <= i < j < got.len() && (#[trigger] got[i]) is Some && (#[trigger] got[j]) is Some
                    ==> got[i].unwrap().job_id != got[j].unwrap().job_id
        }),
    decreases calls.len(),
{
    if calls.len() > 0 {
        let prev = acquire_series(runs, calls.drop_last());
        lemma_acquire_series_inv(runs, calls.drop_last());
        lemma_acquire_step(prev.0, calls.last().0, calls.last().1);
        let step = acquire_spec(prev.0, calls.last().0, calls.last().1);
        let got = prev.1.push(step.1);
        let n = prev.1.len() as int;
        assert forall|i: int|
            0 <= i < got.len() && (#[trigger] got[i]) is Some implies running_if_handed(
                step.0,
                got[i].unwrap().job_id,
            ) by {
            if i < n {
                assert(got[i] == prev.1[i]);
                assert(running_if_handed(prev.0, prev.1[i].unwrap().job_id));
            }
        }
        assert forall|i: int, j: int|
            0 <= i < j < got.len() && (#[trigger] got[i]) is Some && (#[trigger] got[j]) is Some
                implies got[i].unwrap().job_id != got[j].unwrap().job_id by {
            assert(got[i] == prev.1[i]);
            assert(running_if_handed(prev.0, prev.1[i].unwrap().job_id));
            if j < n {
                assert(got[j] == prev.1[j]);
            }
        }
    }
}

/// However many agents ask for work, in whatever order their requests are
/// taken one at a time, no job is handed out twice: every job handed out is
/// running from then on, and only pending jobs are handed out.
pub proof fn lemma_acquisitions_hand_out_distinct_jobs(
    runs: Seq<RunView>,
    calls: Seq<(u128, i64)>,
    i: int,
    j: int,
)
    requires
        all_job_ids_distinct(runs),
        0 <= i < j < calls.len(),
    ensures
        ({
            let got = acquire_series(runs, calls).1;
            got[i] matches Some(a) ==> (got[j] matches Some(b) ==> a.job_id != b.job_id)
        }),
{
    lemma_acquire_series_inv(runs, calls);
}

/// When some job is ready, one of them is the next.
pub proof fn lemma_some_ready_has_next(runs: Seq<RunView>)
    requires
        exists|r: int, k: int| #[trigger] ready_at(runs, r, k),
    ensures
        exists|r: int, k: int| is_next_job(runs, r, k),
{
    let (r0, k0) = choose|r: int, k: int| #[trigger] ready_at(runs, r, k);
    let found = lemma_first_oldest_ready(runs, runs.len() as int, 0);
    assert(position_before(r0, k0, runs.len() as int, 0));
    let (rb, kb) = found.unwrap();
    assert(is_next_job(runs, rb, kb));
}

/// Among the ready jobs placed before position `(r, m)`, the oldest one that
/// comes first, if any is ready.
proof fn lemma_first_oldest_ready(runs: Seq<RunView>, r: int, m: int) -> (res: Option<(int, int)>)
    requires
        0 <= r <= runs.len(),
        0 <= m,
    ensures
        res is None ==> forall|r2: int, k2: int|
            #![trigger ready_at(runs, r2, k2)]
            position_before(r2, k2, r, m) ==> !ready_at(runs, r2, k2),
        res matches Some((rb, kb)) ==> {
            &&& ready_at(runs, rb, kb)
            &&& position_before(rb, kb, r, m)
            &&& forall|r2: int, k2: int|
                #![trigger ready_at(runs, r2, k2)]
                ready_at(runs, r2, k2) && position_before(r2, k2, r, m)
                    ==> runs[rb].jobs[kb].created_at <= runs[r2].jobs[k2].created_at
            &&& forall|r2: int, k2: int|
                #![trigger ready_at(runs, r2, k2)]
                ready_at(runs, r2, k2) && position_before(r2, k2, rb, kb)
                    ==> runs[rb].jobs[kb].created_at < runs[r2].jobs[k2].created_at
        },
    decreases r, m,
{
    if m > 0 {
        let prev = lemma_first_oldest_ready(runs, r, m - 1);
        if ready_at(runs, r, m - 1) {
            match prev {
                None => Some((r, m - 1)),
                Some((pr, pk)) => {
                    if runs[r].jobs[m - 1].created_at < runs[pr].jobs[pk].created_at {
                        Some((r, m - 1))
                    } else {
                        Some((pr, pk))
                    }
                },
            }
        } else {
            prev
        }
    } else if r == 0 {
        None
    } else {
        let prev = lemma_first_oldest_ready(runs, r - 1, runs[r - 1].jobs.len() as int);
        prev
    }
}

/// Handing out a job changes no finished job when job ids are distinct, and
/// never changes a finished pipeline.
pub proof fn lemma_start_job_keeps_finished(v: RunView, k: int, agent_id: u128, now: i64)
    requires
        job_ready(v, k),
        job_ids_distinct(v.jobs),
    ensures
        ({
            let v1 = start_job_spec(v, k, agent_id, now).0;
            &&& v1.jobs.len() == v.jobs.len()
            &&& v1.steps == v.steps
            &&& v1.jobs[k].status == JobStatus::Running
            &&& forall|x: int|
                0 <= x < v.jobs.len() && x != k ==> #[trigger] v1.jobs[x] == v.jobs[x]
            &&& crate::status::pipeline_is_terminal(v.pipeline.status) ==> v1.pipeline == v.pipeline
        }),
{
    let v1 = start_job_spec(v, k, agent_id, now).0;
    assert forall|x: int| 0 <= x < v.jobs.len() && x != k implies #[trigger] v1.jobs[x] == v.jobs[x] by {
        assert(v.jobs[x].id != v.jobs[k].id);
    }
}
} // verus!
