use kanade::lifecycle::{
    select_next_job, AcquiredJob, AgentJobStepsApi, AgentJobsApi, EventMessage, JobDependency,
    JobFinishResponse, JobRow, PipelineRow, PipelineRun, StepFinishResponse, StepRow,
    StepStartedResponse,
};
use kanade::status::{JobStatus, PipelineStatus};

fn job(id: u128, status: JobStatus, created_at: i64) -> JobRow {
    JobRow {
        id,
        status,
        created_at,
        started_at: None,
        finished_at: if matches!(
            status,
            JobStatus::Success | JobStatus::Failed | JobStatus::Skipped | JobStatus::Cancelled
        ) {
            Some(created_at + 1)
        } else {
            None
        },
        agent_id: None,
    }
}

fn step(id: u128, job_id: u128, status: JobStatus) -> StepRow {
    StepRow { id, job_id, status, exit_code: None, started_at: None, finished_at: None }
}

fn running_pipeline(id: u128) -> PipelineRow {
    PipelineRow { id, status: PipelineStatus::Running, started_at: Some(10), finished_at: None }
}

fn queued_pipeline(id: u128) -> PipelineRow {
    PipelineRow { id, status: PipelineStatus::Queued, started_at: None, finished_at: None }
}

#[test]
fn finishing_the_last_job_settles_the_pipeline() {
    let mut run = PipelineRun {
        pipeline: running_pipeline(1),
        jobs: vec![job(10, JobStatus::Success, 0), job(11, JobStatus::Running, 0)],
        steps: vec![
            step(100, 11, JobStatus::Success),
            step(101, 11, JobStatus::Running),
            step(102, 11, JobStatus::Pending),
        ],
        depends: vec![],
    };
    let (answer, events) = AgentJobsApi::finish(&mut run, 11, true, 50);
    assert_eq!(answer, JobFinishResponse::Accepted);
    assert_eq!(
        events,
        vec![
            EventMessage::UpdateJobStatus { pipeline: 1, job: 11, status: JobStatus::Success },
            EventMessage::UpdatePipelineStatus { pipeline: 1, status: PipelineStatus::Success },
        ]
    );
    assert_eq!(run.jobs[1].status, JobStatus::Success);
    assert_eq!(run.jobs[1].finished_at, Some(50));
    assert_eq!(run.steps[0].status, JobStatus::Success);
    assert_eq!(run.steps[0].finished_at, None);
    assert_eq!(run.steps[1].status, JobStatus::Failed);
    assert_eq!(run.steps[1].finished_at, Some(50));
    assert_eq!(run.steps[2].status, JobStatus::Success);
    assert_eq!(run.pipeline.status, PipelineStatus::Success);
    assert_eq!(run.pipeline.finished_at, Some(50));
}

#[test]
fn a_failed_job_fails_the_pipeline_and_skips_its_open_steps() {
    let mut run = PipelineRun {
        pipeline: running_pipeline(2),
        jobs: vec![job(20, JobStatus::Running, 0)],
        steps: vec![step(200, 20, JobStatus::Pending)],
        depends: vec![],
    };
    let (answer, events) = run.finish_job(20, false, 7);
    assert_eq!(answer, JobFinishResponse::Accepted);
    assert_eq!(
        events,
        vec![
            EventMessage::UpdateJobStatus { pipeline: 2, job: 20, status: JobStatus::Failed },
            EventMessage::UpdatePipelineStatus { pipeline: 2, status: PipelineStatus::Failed },
        ]
    );
    assert_eq!(run.steps[0].status, JobStatus::Skipped);
    assert_eq!(run.pipeline.status, PipelineStatus::Failed);
}

#[test]
fn a_job_is_finished_only_once() {
    let mut run = PipelineRun {
        pipeline: running_pipeline(3),
        jobs: vec![job(30, JobStatus::Running, 0), job(31, JobStatus::Pending, 0)],
        steps: vec![],
        depends: vec![],
    };
    let (first, events) = run.finish_job(30, true, 5);
    assert_eq!(first, JobFinishResponse::Accepted);
    assert_eq!(
        events,
        vec![EventMessage::UpdateJobStatus { pipeline: 3, job: 30, status: JobStatus::Success }]
    );
    assert_eq!(run.pipeline.status, PipelineStatus::Running);
    let before = (run.pipeline, run.jobs.clone());
    let (second, events) = run.finish_job(30, false, 9);
    assert_eq!(second, JobFinishResponse::JobNotFound);
    assert!(events.is_empty());
    assert_eq!((run.pipeline, run.jobs.clone()), before);
    let (unknown, _) = run.finish_job(99, true, 9);
    assert_eq!(unknown, JobFinishResponse::JobNotFound);
    let (pending, _) = run.finish_job(31, true, 9);
    assert_eq!(pending, JobFinishResponse::JobNotFound);
}

#[test]
fn steps_start_and_finish_once() {
    let mut run = PipelineRun {
        pipeline: running_pipeline(4),
        jobs: vec![job(40, JobStatus::Running, 0)],
        steps: vec![step(400, 40, JobStatus::Pending), step(401, 40, JobStatus::Pending)],
        depends: vec![],
    };
    assert_eq!(AgentJobStepsApi::started(&mut run, 400, 3), StepStartedResponse::Accepted);
    assert_eq!(run.steps[0].status, JobStatus::Running);
    assert_eq!(run.steps[0].started_at, Some(3));
    assert_eq!(AgentJobStepsApi::started(&mut run, 400, 4), StepStartedResponse::StepNotFound);
    assert_eq!(run.steps[0].started_at, Some(3));
    assert_eq!(
        AgentJobStepsApi::finish(&mut run, 401, true, 0, 5),
        StepFinishResponse::StepNotFound
    );
    assert_eq!(AgentJobStepsApi::finish(&mut run, 400, false, 2, 6), StepFinishResponse::Accepted);
    assert_eq!(run.steps[0].status, JobStatus::Failed);
    assert_eq!(run.steps[0].exit_code, Some(2));
    assert_eq!(run.steps[0].finished_at, Some(6));
    assert_eq!(
        AgentJobStepsApi::finish(&mut run, 400, true, 0, 7),
        StepFinishResponse::StepNotFound
    );
    assert_eq!(run.steps[0].status, JobStatus::Failed);
    assert_eq!(run.steps[1].status, JobStatus::Pending);
}

#[test]
fn the_oldest_ready_job_is_handed_out_first() {
    let mut runs = vec![
        PipelineRun {
            pipeline: queued_pipeline(5),
            jobs: vec![job(50, JobStatus::Pending, 30), job(51, JobStatus::Pending, 10)],
            steps: vec![],
            depends: vec![JobDependency { upstream_id: 50, downstream_id: 51 }],
        },
        PipelineRun {
            pipeline: queued_pipeline(6),
            jobs: vec![job(60, JobStatus::Pending, 20)],
            steps: vec![],
            depends: vec![],
        },
    ];
    assert_eq!(select_next_job(&runs), Some((1, 0)));
    let (acquired, events) = AgentJobsApi::acquire(&mut runs, 77, 100);
    assert_eq!(acquired, Some(AcquiredJob { pipeline_id: 6, job_id: 60 }));
    assert_eq!(
        events,
        vec![
            EventMessage::UpdatePipelineStatus { pipeline: 6, status: PipelineStatus::Running },
            EventMessage::UpdateJobStatus { pipeline: 6, job: 60, status: JobStatus::Running },
        ]
    );
    assert_eq!(runs[1].jobs[0].status, JobStatus::Running);
    assert_eq!(runs[1].jobs[0].agent_id, Some(77));
    assert_eq!(runs[1].jobs[0].started_at, Some(100));
    assert_eq!(runs[1].pipeline.status, PipelineStatus::Running);
    assert_eq!(runs[1].pipeline.started_at, Some(100));

    let (acquired, _) = AgentJobsApi::acquire(&mut runs, 78, 101);
    assert_eq!(acquired, Some(AcquiredJob { pipeline_id: 5, job_id: 50 }));
    // Job 51 waits for 50, which is running.
    let (acquired, events) = AgentJobsApi::acquire(&mut runs, 79, 102);
    assert_eq!(acquired, None);
    assert!(events.is_empty());

    let (answer, _) = runs[0].finish_job(50, true, 103);
    assert_eq!(answer, JobFinishResponse::Accepted);
    let (acquired, events) = AgentJobsApi::acquire(&mut runs, 79, 104);
    assert_eq!(acquired, Some(AcquiredJob { pipeline_id: 5, job_id: 51 }));
    assert_eq!(
        events,
        vec![EventMessage::UpdateJobStatus { pipeline: 5, job: 51, status: JobStatus::Running }]
    );
}

#[test]
fn a_failed_upstream_keeps_the_downstream_waiting() {
    let run = PipelineRun {
        pipeline: running_pipeline(8),
        jobs: vec![job(80, JobStatus::Failed, 0), job(81, JobStatus::Pending, 0)],
        steps: vec![],
        depends: vec![JobDependency { upstream_id: 80, downstream_id: 81 }],
    };
    assert!(!run.is_ready(0));
    assert!(!run.is_ready(1));
    assert_eq!(select_next_job(&vec![run]), None);
}

#[test]
fn ties_in_age_go_to_the_first_listed() {
    let runs = vec![
        PipelineRun {
            pipeline: queued_pipeline(9),
            jobs: vec![job(90, JobStatus::Running, 5), job(91, JobStatus::Pending, 5)],
            steps: vec![],
            depends: vec![],
        },
        PipelineRun {
            pipeline: queued_pipeline(10),
            jobs: vec![job(100, JobStatus::Pending, 5)],
            steps: vec![],
            depends: vec![],
        },
    ];
    assert!(runs[0].is_ready(1));
    assert_eq!(select_next_job(&runs), Some((0, 1)));
}

#[test]
fn starting_a_job_of_a_running_pipeline_sends_one_event() {
    let mut run = PipelineRun {
        pipeline: running_pipeline(11),
        jobs: vec![job(110, JobStatus::Pending, 0)],
        steps: vec![],
        depends: vec![],
    };
    let events = run.start_job(0, 5, 20);
    assert_eq!(
        events,
        vec![EventMessage::UpdateJobStatus { pipeline: 11, job: 110, status: JobStatus::Running }]
    );
    assert_eq!(run.pipeline.started_at, Some(10));
}

fn consistent(run: &PipelineRun) -> bool {
    let finished = |s: JobStatus| {
        matches!(s, JobStatus::Success | JobStatus::Failed | JobStatus::Skipped | JobStatus::Cancelled)
    };
    let p = &run.pipeline;
    let pipeline_ok = (!matches!(
        p.status,
        PipelineStatus::Success | PipelineStatus::Failed | PipelineStatus::Cancelled
    ) || p.finished_at.is_some())
        && (p.status != PipelineStatus::Running || p.started_at.is_some());
    pipeline_ok
        && run.jobs.iter().all(|j| {
            (!finished(j.status) || j.finished_at.is_some())
                && (j.status != JobStatus::Running || (j.started_at.is_some() && j.agent_id.is_some()))
        })
        && run.steps.iter().all(|s| {
            (!finished(s.status) || s.finished_at.is_some())
                && (s.status != JobStatus::Running || s.started_at.is_some())
        })
}

#[test]
fn every_operation_keeps_rows_consistent() {
    let mut runs = vec![PipelineRun {
        pipeline: queued_pipeline(12),
        jobs: vec![job(120, JobStatus::Pending, 0), job(121, JobStatus::Pending, 1)],
        steps: vec![step(1200, 120, JobStatus::Pending), step(1201, 120, JobStatus::Pending)],
        depends: vec![JobDependency { upstream_id: 120, downstream_id: 121 }],
    }];
    assert!(consistent(&runs[0]));
    let (got, _) = AgentJobsApi::acquire(&mut runs, 1, 10);
    assert_eq!(got, Some(AcquiredJob { pipeline_id: 12, job_id: 120 }));
    assert!(consistent(&runs[0]));
    AgentJobStepsApi::started(&mut runs[0], 1200, 11);
    assert!(consistent(&runs[0]));
    AgentJobStepsApi::finish(&mut runs[0], 1200, true, 0, 12);
    assert!(consistent(&runs[0]));
    AgentJobStepsApi::started(&mut runs[0], 1201, 13);
    AgentJobsApi::finish(&mut runs[0], 120, false, 14);
    assert!(consistent(&runs[0]));
    assert_eq!(runs[0].steps[1].status, JobStatus::Failed);
    assert_eq!(runs[0].pipeline.status, PipelineStatus::Running);
}
