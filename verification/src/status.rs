use vstd::prelude::*;

verus! {

/// What triggered a pipeline.
#[derive(Debug, Clone, Copy, PartialEq, Eq, Structural)]
pub enum EventType {
    Push,
    Tag,
    Release,
    PullRequest,
    Cron,
    Manual,
}

/// The snake_case name under which an event type is stored and handed to
/// the pipeline script.
pub open spec fn event_name_spec(e: EventType) -> Seq<char> {
    match e {
        EventType::Push => seq!['p', 'u', 's', 'h'],
        EventType::Tag => seq!['t', 'a', 'g'],
        EventType::Release => seq!['r', 'e', 'l', 'e', 'a', 's', 'e'],
        EventType::PullRequest => seq!['p', 'u', 'l', 'l', '_', 'r', 'e', 'q', 'u', 'e', 's', 't'],
        EventType::Cron => seq!['c', 'r', 'o', 'n'],
        EventType::Manual => seq!['m', 'a', 'n', 'u', 'a', 'l'],
    }
}

impl EventType {
    /// The snake_case name of the event type.
    pub fn name(&self) -> (s: &'static str)
        ensures
            s@ == event_name_spec(*self),
    {
        match self {
            EventType::Push => {
                let s = "push";
                proof { reveal_strlit("push"); }
                s
            },
            EventType::Tag => {
                let s = "tag";
                proof { reveal_strlit("tag"); }
                s
            },
            EventType::Release => {
                let s = "release";
                proof { reveal_strlit("release"); }
                s
            },
            EventType::PullRequest => {
                let s = "pull_request";
                proof { reveal_strlit("pull_request"); }
                s
            },
            EventType::Cron => {
                let s = "cron";
                proof { reveal_strlit("cron"); }
                s
            },
            EventType::Manual => {
                let s = "manual";
                proof { reveal_strlit("manual"); }
                s
            },
        }
    }
}

/// Lifecycle state of a pipeline.
#[derive(Debug, Clone, Copy, PartialEq, Eq, Structural)]
pub enum PipelineStatus {
    Queued,
    Running,
    Success,
    Failed,
    Cancelled,
}

/// Lifecycle state of a job or of one of its steps.
#[derive(Debug, Clone, Copy, PartialEq, Eq, Structural)]
pub enum JobStatus {
    Waiting,
    Pending,
    Running,
    Success,
    Failed,
    Skipped,
    Cancelled,
}

/// Role of a user inside a team.
#[derive(Debug, Clone, Copy, PartialEq, Eq, Structural)]
pub enum RoleType {
    Viewer,
    Manager,
    Admin,
}

/// Availability of a build agent.
#[derive(Debug, Clone, Copy, PartialEq, Eq, Structural)]
pub enum AgentStatus {
    Idle,
    Busy,
    Offline,
}

/// A job or step status from which nothing moves on.
pub open spec fn is_terminal(s: JobStatus) -> bool {
    s == JobStatus::Success || s == JobStatus::Failed || s == JobStatus::Skipped
        || s == JobStatus::Cancelled
}

/// A pipeline status from which nothing moves on.
pub open spec fn pipeline_is_terminal(s: PipelineStatus) -> bool {
    s == PipelineStatus::Success || s == PipelineStatus::Failed || s == PipelineStatus::Cancelled
}

impl JobStatus {
    /// Whether the status is one of `success`, `failed`, `skipped`, `cancelled`.
    pub fn is_finished(&self) -> (b: bool)
        ensures
            b == is_terminal(*self),
    {
        match self {
            JobStatus::Success | JobStatus::Failed | JobStatus::Skipped | JobStatus::Cancelled => true,
            _ => false,
        }
    }
}

} // verus!
