//! The realtime fan-out: which channels carry status events and log lines,
//! where the log lines of a job are kept, and which of them a listener
//! receives.
use vstd::prelude::*;

use crate::agent::AgentLogMessage;
use crate::codec::{uuid_hyphenated, uuid_to_string};

verus! {

/// The channel on which status events are published.
pub open spec fn events_channel_spec() -> Seq<char> {
    "kanade:events"@
}

/// The channel on which log lines are published.
pub open spec fn logs_channel_spec() -> Seq<char> {
    "kanade:logs"@
}

/// The stream that keeps the log lines of job `job_id`:
/// `kanade:logs:` and the hyphenated identifier.
pub open spec fn log_stream_key_spec(job_id: u128) -> Seq<char> {
    "kanade:logs:"@ + uuid_hyphenated(job_id)
}

/// One line of output of a step.
pub struct LogEntry {
    pub step_id: u128,
    pub content: String,
}

/// A line of output of a step of a job, as it travels between servers.
pub struct LogMessage {
    pub job_id: u128,
    pub entry: LogEntry,
}

/// The publisher and subscriber side of the realtime channels.
pub struct Realtime;

impl Realtime {
    /// The channel name of status events.
    pub fn events_channel() -> (s: &'static str)
        ensures
            s@ == events_channel_spec(),
    {
        let s = "kanade:events";
        proof {
            reveal_strlit("kanade:events");
        }
        s
    }

    /// The channel name of log lines.
    pub fn logs_channel() -> (s: &'static str)
        ensures
            s@ == logs_channel_spec(),
    {
        let s = "kanade:logs";
        proof {
            reveal_strlit("kanade:logs");
        }
        s
    }

    /// The key of the stream where the log lines of `job_id` are appended.
    pub fn log_stream_key(job_id: u128) -> (s: String)
        ensures
            s@ == log_stream_key_spec(job_id),
    {
        let id = uuid_to_string(job_id);
        let mut s = String::from_str("kanade:logs:");
        proof {
            reveal_strlit("kanade:logs:");
        }
        s.append(id.as_str());
        s
    }
}

impl LogMessage {
    /// The log line a connected agent sent, as it is published.
    pub fn from_agent(m: AgentLogMessage) -> (r: LogMessage)
        ensures
            match m {
                AgentLogMessage::Log { job_id, step_id, kind: _, content } => r.job_id == job_id
                    && r.entry.step_id == step_id && r.entry.content == content,
            },
    {
        match m {
            AgentLogMessage::Log { job_id, step_id, kind: _, content } => LogMessage {
                job_id,
                entry: LogEntry { step_id, content },
            },
        }
    }

    /// Whether a listener on the log of job `job_id` is sent this line.
    pub fn is_for(&self, job_id: u128) -> (b: bool)
        ensures
            b == (self.job_id == job_id),
    {
        self.job_id == job_id
    }
}

/// An entry of a stream: its identifier and its field/value pairs.
pub type StreamEntry = (String, Vec<(String, String)>);

/// The payloads kept in a log stream: of each entry that has a field, the
/// value of its first field, in the order of the stream.
pub open spec fn log_payloads_spec(entries: Seq<Seq<(Seq<char>, Seq<char>)>>) -> Seq<Seq<char>>
    decreases entries.len(),
{
    if entries.len() == 0 {
        seq![]
    } else {
        let rest = log_payloads_spec(entries.drop_last());
        let fields = entries.last();
        if fields.len() == 0 {
            rest
        } else {
            rest.push(fields[0].1)
        }
    }
}

/// The field/value pairs of a stream entry as plain text.
pub open spec fn entry_fields(e: StreamEntry) -> Seq<(Seq<char>, Seq<char>)> {
    Seq::new(e.1@.len(), |i: int| (e.1@[i].0@, e.1@[i].1@))
}

/// The log endpoints.
pub struct JobsApi;

impl JobsApi {
    /// The stored log payloads of a job, read from the entries of its log
    /// stream (each payload is one encoded [`LogEntry`]).
    pub fn log_payloads(entries: &Vec<StreamEntry>) -> (r: Vec<String>)
        ensures
            r@.map_values(|s: String| s@) == log_payloads_spec(
                entries@.map_values(|e: StreamEntry| entry_fields(e)),
            ),
    {
        let ghost es = entries@.map_values(|e: StreamEntry| entry_fields(e));
        let mut r: Vec<String> = Vec::new();
        let mut i: usize = 0;
        while i < entries.len()
            invariant
                i <= entries.len(),
                es == entries@.map_values(|e: StreamEntry| entry_fields(e)),
                r@.map_values(|s: String| s@) == log_payloads_spec(es.take(i as int)),
            decreases entries.len() - i,
        {
            assert(es.take(i as int + 1).drop_last() =~= es.take(i as int));
            let fields = &entries[i].1;
            if fields.len() > 0 {
                let v = fields[0].1.clone();
                r.push(v);
                assert(r@.map_values(|s: String| s@) =~= log_payloads_spec(es.take(i as int)).push(
                    fields@[0].1@,
                ));
            }
            i = i + 1;
        }
        assert(es.take(entries.len() as int) =~= es);
        r
    }
}

} // verus!
