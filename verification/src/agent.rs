//! The build agent: how it polls for work, reports progress, and batches
//! the log lines it streams to the server.
use vstd::prelude::*;
use vstd::string::*;

use crate::codec::{uuid_hyphenated, uuid_to_string};

verus! {

/// The command line of the agent.
pub struct Args {
    /// The configuration file.
    pub config: String,
}

/// The configuration file read unless another is named.
pub open spec fn default_agent_config() -> Seq<char> {
    "kanade-agent.toml"@
}

impl Args {
    /// The arguments with `config` given or defaulted to
    /// `kanade-agent.toml`.
    pub fn with_config(config: Option<String>) -> (a: Args)
        ensures
            a.config@ == match config {
                Some(c) => c@,
                None => default_agent_config(),
            },
    {
        match config {
            Some(c) => Args { config: c },
            None => Args { config: String::from_str("kanade-agent.toml") },
        }
    }
}

/// The agent's configuration.
pub struct AgentConfig {
    pub api_uri: String,
    pub token: String,
}

// ---------------------------------------------------------------------
// Polling for work
// ---------------------------------------------------------------------

/// What the agent does after asking the server for a job.
#[derive(Debug, Clone, Copy, PartialEq, Eq, Structural)]
pub enum PollAction {
    /// Run the job in the answer.
    RunJob,
    /// Wait this many seconds, then ask again.
    WaitSeconds(u64),
    /// Ask again at once.
    RetryNow,
}

/// The seconds the agent waits when there is no work or the server
/// misbehaves.
pub const POLL_BACKOFF_SECONDS: u64 = 5;

/// The build agent.
pub struct KanadeAgent;

impl KanadeAgent {
    /// The address the agent polls for jobs.
    pub fn acquire_url(api_uri: &str) -> (u: String)
        ensures
            u@ == api_uri@ + "/api/v1/agent/jobs/acquire"@,
    {
        let mut u = String::from_str(api_uri);
        u.append("/api/v1/agent/jobs/acquire");
        u
    }

    /// What to do with the answer to a poll: `200` carries a job, `204`
    /// means no work yet (wait five seconds), another status is an error
    /// (wait five seconds); when the request itself failed, ask again at
    /// once.
    pub fn after_poll(status: Option<u16>) -> (a: PollAction)
        ensures
            a == match status {
                Some(s) => if s == 200 {
                    PollAction::RunJob
                } else {
                    PollAction::WaitSeconds(POLL_BACKOFF_SECONDS)
                },
                None => PollAction::RetryNow,
            },
    {
        match status {
            Some(s) => if s == 200 {
                PollAction::RunJob
            } else {
                PollAction::WaitSeconds(POLL_BACKOFF_SECONDS)
            },
            None => PollAction::RetryNow,
        }
    }

    /// What to do when the answer to a poll carried no readable job: wait
    /// five seconds.
    pub fn after_unreadable_job() -> (a: PollAction)
        ensures
            a == PollAction::WaitSeconds(POLL_BACKOFF_SECONDS),
    {
        PollAction::WaitSeconds(POLL_BACKOFF_SECONDS)
    }

    /// The image a job runs in: the one the server named, or the empty
    /// name.
    pub fn job_image(image: Option<String>) -> (i: String)
        ensures
            i@ == match image {
                Some(s) => s@,
                None => Seq::<char>::empty(),
            },
    {
        match image {
            Some(s) => s,
            None => String::new(),
        }
    }

    /// The time a job may run, in seconds, from its timeout in minutes.
    pub fn job_timeout_seconds(timeout_minutes: i32) -> (s: i64)
        ensures
            s == timeout_minutes * 60,
    {
        (timeout_minutes as i64) * 60
    }
}

// ---------------------------------------------------------------------
// Reporting progress
// ---------------------------------------------------------------------

/// What an agent sends when a step finished.
#[derive(Debug, Clone, Copy, PartialEq, Eq, Structural)]
pub struct StepFinishRequest {
    pub success: bool,
    pub exit_code: i32,
}

/// What an agent sends when a job finished.
#[derive(Debug, Clone, Copy, PartialEq, Eq, Structural)]
pub struct JobFinishRequest {
    pub success: bool,
}

/// Which stream a log line came from.
#[derive(Debug, Clone, Copy, PartialEq, Eq, Structural)]
pub enum AgentLogKind {
    Stdout,
    Stderr,
}

/// A line a step wrote.
pub enum LogLine {
    StdIn(String),
    StdOut(String),
    StdErr(String),
}

/// A log line as streamed to the server.
pub enum AgentLogMessage {
    Log { job_id: u128, step_id: u128, kind: AgentLogKind, content: String },
}

/// An error while reporting to the server.
pub struct ReporterError(pub String);

impl ReporterError {
    /// The text of the error.
    pub fn message(&self) -> (m: String)
        ensures
            m@ == self.0@,
    {
        self.0.clone()
    }
}

/// Reports progress to the server.
pub struct HttpReporter;

/// `{base}/api/v1/agent/steps/{step}/{action}`.
pub open spec fn step_url_spec(base: Seq<char>, step_id: u128, action: Seq<char>) -> Seq<char> {
    base + "/api/v1/agent/steps/"@ + uuid_hyphenated(step_id) + "/"@ + action
}

impl HttpReporter {
    /// Where a started step is reported.
    pub fn step_started_url(base_url: &str, step_id: u128) -> (u: String)
        ensures
            u@ == step_url_spec(base_url@, step_id, "started"@),
    {
        let mut u = String::from_str(base_url);
        u.append("/api/v1/agent/steps/");
        let id = uuid_to_string(step_id);
        u.append(id.as_str());
        u.append("/");
        u.append("started");
        u
    }

    /// Where a finished step is reported.
    pub fn step_finished_url(base_url: &str, step_id: u128) -> (u: String)
        ensures
            u@ == step_url_spec(base_url@, step_id, "finish"@),
    {
        let mut u = String::from_str(base_url);
        u.append("/api/v1/agent/steps/");
        let id = uuid_to_string(step_id);
        u.append(id.as_str());
        u.append("/");
        u.append("finish");
        u
    }

    /// Where a finished job is reported.
    pub fn job_finished_url(base_url: &str, job_id: u128) -> (u: String)
        ensures
            u@ == base_url@ + "/api/v1/agent/jobs/"@ + uuid_hyphenated(job_id) + "/finish"@,
    {
        let mut u = String::from_str(base_url);
        u.append("/api/v1/agent/jobs/");
        let id = uuid_to_string(job_id);
        u.append(id.as_str());
        u.append("/finish");
        u
    }

    /// The report of a finished step: it succeeded exactly when it exited
    /// with zero.
    pub fn step_finished(exit_code: i32) -> (r: StepFinishRequest)
        ensures
            r.success == (exit_code == 0),
            r.exit_code == exit_code,
    {
        StepFinishRequest { success: exit_code == 0, exit_code }
    }

    /// The report of a finished job.
    pub fn job_finished(success: bool) -> (r: JobFinishRequest)
        ensures
            r.success == success,
    {
        JobFinishRequest { success }
    }

    /// The message streamed for a line a step wrote: standard output and
    /// error are streamed with their kind, standard input is not.
    pub fn step_log(job_id: u128, step_id: u128, line: LogLine) -> (m: Option<AgentLogMessage>)
        ensures
            match line {
                LogLine::StdIn(_) => m is None,
                LogLine::StdOut(s) => m matches Some(AgentLogMessage::Log { job_id: j, step_id: st, kind, content })
                    && j == job_id && st == step_id && kind == AgentLogKind::Stdout && content == s,
                LogLine::StdErr(s) => m matches Some(AgentLogMessage::Log { job_id: j, step_id: st, kind, content })
                    && j == job_id && st == step_id && kind == AgentLogKind::Stderr && content == s,
            },
    {
        match line {
            LogLine::StdIn(_) => None,
            LogLine::StdOut(content) => Some(
                AgentLogMessage::Log { job_id, step_id, kind: AgentLogKind::Stdout, content },
            ),
            LogLine::StdErr(content) => Some(
                AgentLogMessage::Log { job_id, step_id, kind: AgentLogKind::Stderr, content },
            ),
        }
    }
}

// ---------------------------------------------------------------------
// Streaming logs
// ---------------------------------------------------------------------

/// The part of `s` from position `i` starts with `pat`.
pub open spec fn occurs_at(s: Seq<char>, pat: Seq<char>, i: int) -> bool {
    0 <= i && i + pat.len() <= s.len() && s.subrange(i, i + pat.len()) == pat
}

/// `i` is the first position where `pat` occurs in `s`.
pub open spec fn first_occurrence(s: Seq<char>, pat: Seq<char>, i: int) -> bool {
    occurs_at(s, pat, i) && forall|j: int| 0 <= j < i ==> !#[trigger] occurs_at(s, pat, j)
}

/// `str::replacen(pat, to, 1)`: the first occurrence of `pat` replaced by
/// `to`, or `s` itself when there is none.
pub open spec fn replace_first_spec(s: Seq<char>, pat: Seq<char>, to: Seq<char>) -> Seq<char> {
    if exists|i: int| first_occurrence(s, pat, i) {
        let i = choose|i: int| first_occurrence(s, pat, i);
        s.subrange(0, i) + to + s.subrange(i + pat.len(), s.len() as int)
    } else {
        s
    }
}

fn occurs_at_exec(s: &str, n: usize, pat: &str, m: usize, i: usize) -> (b: bool)
    requires
        n == s@.len(),
        m == pat@.len(),
        i + m <= n,
    ensures
        b == occurs_at(s@, pat@, i as int),
{
    let mut k: usize = 0;
    while k < m
        invariant
            n == s@.len(),
            m == pat@.len(),
            i + m <= n,
            k <= m,
            forall|x: int| 0 <= x < k ==> s@[i + x] == pat@[x],
        decreases m - k,
    {
        if s.get_char(i + k) != pat.get_char(k) {
            assert(s@.subrange(i as int, i + m)[k as int] != pat@[k as int]);
            return false;
        }
        k = k + 1;
    }
    assert(s@.subrange(i as int, i + m) =~= pat@);
    true
}

/// Replaces the first occurrence of `pat` in `s` by `to`.
pub fn replace_first(s: &str, pat: &str, to: &str) -> (r: String)
    ensures
        r@ == replace_first_spec(s@, pat@, to@),
{
    let n = s.unicode_len();
    let m = pat.unicode_len();
    if m > n {
        proof {
            assert forall|i: int| !first_occurrence(s@, pat@, i) by {}
        }
        return String::from_str(s);
    }
    let mut i: usize = 0;
    while i <= n - m
        invariant
            n == s@.len(),
            m == pat@.len(),
            m <= n,
            i <= n + 1,
            i <= n - m + 1,
            forall|j: int| 0 <= j < i ==> !#[trigger] occurs_at(s@, pat@, j),
        decreases n - m + 1 - i,
    {
        if occurs_at_exec(s, n, pat, m, i) {
            assert(first_occurrence(s@, pat@, i as int));
            proof {
                assert forall|x: int| first_occurrence(s@, pat@, x) implies x == i by {
                    if x < i {
                    } else if x > i {
                        assert(!occurs_at(s@, pat@, i as int));
                    }
                }
            }
            let mut r = String::from_str(s.substring_char(0, i));
            r.append(to);
            r.append(s.substring_char(i + m, n));
            return r;
        }
        if i == n {
            proof {
                assert forall|x: int| !first_occurrence(s@, pat@, x) by {
                    if 0 <= x <= i {
                    } else if x > i {
                        assert(!occurs_at(s@, pat@, x));
                    }
                }
            }
            return String::from_str(s);
        }
        i = i + 1;
    }
    proof {
        assert forall|x: int| !first_occurrence(s@, pat@, x) by {
            if 0 <= x < i {
            } else if x >= i {
                assert(!occurs_at(s@, pat@, x));
            }
        }
    }
    String::from_str(s)
}

/// The websocket address the logs are streamed to: the API address with
/// its first `https://` made `wss://`, then its first `http://` made
/// `ws://`, followed by `/_/ws/agent`.
pub open spec fn log_socket_url_spec(api_uri: Seq<char>) -> Seq<char> {
    replace_first_spec(
        replace_first_spec(api_uri, "https://"@, "wss://"@),
        "http://"@,
        "ws://"@,
    ) + "/_/ws/agent"@
}

/// How many buffered lines trigger a send.
pub const LOG_BATCH_SIZE: usize = 50;

/// How many lines are kept after a failed send.
pub const LOG_RETAINED_AFTER_FAILURE: usize = 300;

/// How many lines may wait to be taken into the buffer.
pub const LOG_CHANNEL_CAPACITY: usize = 128;

/// The lines waiting to be streamed, and the websocket they go to.
pub struct LogSender<T> {
    pub url: String,
    pub buffer: Vec<T>,
}

impl<T> LogSender<T> {
    /// The websocket address the logs are streamed to.
    pub fn socket_url(api_uri: &str) -> (u: String)
        ensures
            u@ == log_socket_url_spec(api_uri@),
    {
        let a = replace_first(api_uri, "https://", "wss://");
        let mut b = replace_first(a.as_str(), "http://", "ws://");
        b.append("/_/ws/agent");
        b
    }

    /// An empty buffer for the agent whose server is at `api_uri`: the lines
    /// go to the websocket of [`LogSender::socket_url`].
    pub fn new(api_uri: &str) -> (s: LogSender<T>)
        ensures
            s.url@ == log_socket_url_spec(api_uri@),
            s.buffer@.len() == 0,
    {
        LogSender { url: LogSender::<T>::socket_url(api_uri), buffer: Vec::new() }
    }

    /// Buffers a line; answers whether the buffer is now due to be sent
    /// (it holds at least 50 lines).
    pub fn push(&mut self, msg: T) -> (flush: bool)
        ensures
            final(self).buffer@ == old(self).buffer@.push(msg),
            flush == (final(self).buffer@.len() >= LOG_BATCH_SIZE),
    {
        self.buffer.push(msg);
        self.buffer.len() >= LOG_BATCH_SIZE
    }

    /// Whether the periodic tick sends the buffer: when it is not empty.
    pub fn tick_due(&self) -> (due: bool)
        ensures
            due == (self.buffer@.len() > 0),
    {
        self.buffer.len() > 0
    }

    /// After the buffer was sent: it is emptied.
    pub fn on_sent(&mut self)
        ensures
            final(self).buffer@.len() == 0,
    {
        self.buffer.clear();
    }

    /// After sending failed: the oldest 300 lines are kept for the next
    /// try, the rest dropped.
    pub fn on_send_failed(&mut self)
        ensures
            final(self).buffer@ == if old(self).buffer@.len() <= LOG_RETAINED_AFTER_FAILURE {
                old(self).buffer@
            } else {
                old(self).buffer@.take(LOG_RETAINED_AFTER_FAILURE as int)
            },
    {
        self.buffer.truncate(LOG_RETAINED_AFTER_FAILURE);
    }
}

} // verus!
